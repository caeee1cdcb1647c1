//! Observability of chat calls: what is counted, warned about and labelled.
//!
//! Labels are bounded: provider and model are set when the tracker is made, and an error
//! is reported as one of three types.

use vstd::prelude::*;
use autoagents_llm::error::LLMError;
use dashmap::DashSet;
use std::collections::hash_map::RandomState;
use crate::text::owned;

verus! {

/// `dashmap::DashSet`, held as it is.
#[verifier::external_type_specification]
#[verifier::external_body]
#[verifier::reject_recursive_types(K)]
#[verifier::reject_recursive_types(S)]
pub struct ExDashSet<K, S>(dashmap::DashSet<K, S>);

/// The pairs that a set holds.
pub uninterp spec fn pairs_in(set: DashSet<(String, String), RandomState>) -> Set<
    (Seq<char>, Seq<char>),
>;

/// `DashSet::new` of the `dashmap` crate: the set is empty.
#[verifier::external_body]
fn empty_pairs() -> (r: DashSet<(String, String), RandomState>)
    ensures
        pairs_in(r) == Set::<(Seq<char>, Seq<char>)>::empty(),
{
    DashSet::new()
}

/// `DashSet::insert` of the `dashmap` crate, with exclusive access to the set: the pair
/// is in the set afterwards, everything else is as before, and the result says whether
/// the pair is new.
#[verifier::external_body]
fn insert_pair(
    set: &mut DashSet<(String, String), RandomState>,
    provider: String,
    model: String,
) -> (fresh: bool)
    ensures
        fresh == !pairs_in(*old(set)).contains((provider@, model@)),
        pairs_in(*final(set)) == pairs_in(*old(set)).insert((provider@, model@)),
{
    set.insert((provider, model))
}

/// A chat provider with the labels under which its calls are tracked.
pub struct TokenTrackingChatProvider<L> {
    inner: L,
    provider: String,
    model: String,
}

impl<L> TokenTrackingChatProvider<L> {
    /// The provider that is wrapped.
    pub closed spec fn wrapped(self) -> L {
        self.inner
    }

    /// The label of the provider.
    pub closed spec fn provider_label(self) -> Seq<char> {
        self.provider@
    }

    /// The label of the model.
    pub closed spec fn model_label(self) -> Seq<char> {
        self.model@
    }

    /// Wraps `inner`; the two labels are used as they are given.
    pub fn new(inner: L, provider: String, model: String) -> (r: Self)
        ensures
            r.wrapped() == inner,
            r.provider_label() == provider@,
            r.model_label() == model@,
    {
        TokenTrackingChatProvider { inner, provider, model }
    }

    /// The model label.
    pub fn model_id(&self) -> (r: &str)
        ensures
            r@ == self.model_label(),
    {
        self.model.as_str()
    }

    /// The provider label.
    pub fn provider_id(&self) -> (r: &str)
        ensures
            r@ == self.provider_label(),
    {
        self.provider.as_str()
    }

    /// The provider that is wrapped.
    pub fn inner(&self) -> (r: &L)
        ensures
            *r == self.wrapped(),
    {
        &self.inner
    }
}

/// The warnings that were given already. Each is given once for a provider and model.
pub struct WarningRegistry {
    usage: DashSet<(String, String), RandomState>,
    rate: DashSet<(String, String), RandomState>,
}

impl WarningRegistry {
    /// The pairs that were warned about for missing usage.
    pub closed spec fn usage_warned(self) -> Set<(Seq<char>, Seq<char>)> {
        pairs_in(self.usage)
    }

    /// The pairs that were warned about for an unknown rate.
    pub closed spec fn rate_warned(self) -> Set<(Seq<char>, Seq<char>)> {
        pairs_in(self.rate)
    }

    /// A registry in which nothing was warned about.
    pub fn new() -> (r: WarningRegistry)
        ensures
            r.usage_warned() == Set::<(Seq<char>, Seq<char>)>::empty(),
            r.rate_warned() == Set::<(Seq<char>, Seq<char>)>::empty(),
    {
        WarningRegistry { usage: empty_pairs(), rate: empty_pairs() }
    }

    /// `true` on the first call for this provider and model.
    pub fn first_usage_warning(&mut self, provider: &str, model: &str) -> (r: bool)
        ensures
            r == !old(self).usage_warned().contains((provider@, model@)),
            final(self).usage_warned() == old(self).usage_warned().insert((provider@, model@)),
            final(self).rate_warned() == old(self).rate_warned(),
    {
        insert_pair(&mut self.usage, owned(provider), owned(model))
    }

    /// `true` on the first call for this provider and model.
    pub fn first_rate_warning(&mut self, provider: &str, model: &str) -> (r: bool)
        ensures
            r == !old(self).rate_warned().contains((provider@, model@)),
            final(self).rate_warned() == old(self).rate_warned().insert((provider@, model@)),
            final(self).usage_warned() == old(self).usage_warned(),
    {
        insert_pair(&mut self.rate, owned(provider), owned(model))
    }
}

/// The failures of a chat call, by kind.
#[derive(Debug, Clone, Copy, PartialEq, Eq, Structural)]
pub enum LlmErrorKind {
    Http,
    Auth,
    InvalidRequest,
    Provider,
    ResponseFormat,
    Generic,
    Json,
    ToolConfig,
    NoToolSupport,
    GuardrailBlocked,
    GuardrailExecutionFailed,
}

/// The bounded type of a failure: what the server or the network did, what the caller
/// did, or what could not be read.
pub open spec fn error_type(kind: LlmErrorKind) -> &'static str {
    match kind {
        LlmErrorKind::Http | LlmErrorKind::Provider | LlmErrorKind::Generic
        | LlmErrorKind::GuardrailBlocked | LlmErrorKind::GuardrailExecutionFailed => "server_error",
        LlmErrorKind::Auth | LlmErrorKind::InvalidRequest | LlmErrorKind::NoToolSupport
        | LlmErrorKind::ToolConfig => "client_error",
        LlmErrorKind::Json | LlmErrorKind::ResponseFormat => "parse_error",
    }
}

/// The bounded type of a failure of the given kind.
pub fn error_type_label(kind: LlmErrorKind) -> (r: &'static str)
    ensures
        r == error_type(kind),
        kind is Auth || kind is InvalidRequest || kind is NoToolSupport || kind is ToolConfig
            <==> r@ == "client_error"@,
        kind is Json || kind is ResponseFormat <==> r@ == "parse_error"@,
        kind is Http || kind is Provider || kind is Generic || kind is GuardrailBlocked
            || kind is GuardrailExecutionFailed <==> r@ == "server_error"@,
{
    proof {
        labels_differ();
    }
    match kind {
        LlmErrorKind::Http
        | LlmErrorKind::Provider
        | LlmErrorKind::Generic
        | LlmErrorKind::GuardrailBlocked
        | LlmErrorKind::GuardrailExecutionFailed => "server_error",
        LlmErrorKind::Auth
        | LlmErrorKind::InvalidRequest
        | LlmErrorKind::NoToolSupport
        | LlmErrorKind::ToolConfig => "client_error",
        LlmErrorKind::Json | LlmErrorKind::ResponseFormat => "parse_error",
    }
}

/// `autoagents_llm::error::LLMError`, carried as it is.
#[verifier::external_type_specification]
#[verifier::external_body]
pub struct ExLLMError(autoagents_llm::error::LLMError);

/// The kind of a provider's error: which variant of `LLMError` it is.
pub uninterp spec fn variant_of(err: LLMError) -> LlmErrorKind;

/// Tells the variants of `LLMError` of the `autoagents-llm` crate apart. The claim is that
/// the kind is a function of the error; each variant has a kind of its own name.
#[verifier::external_body]
fn llm_error_kind(err: &LLMError) -> (r: LlmErrorKind)
    ensures
        r == variant_of(*err),
{
    match err {
        LLMError::HttpError(_) => LlmErrorKind::Http,
        LLMError::AuthError(_) => LlmErrorKind::Auth,
        LLMError::InvalidRequest(_) => LlmErrorKind::InvalidRequest,
        LLMError::ProviderError(_) => LlmErrorKind::Provider,
        LLMError::ResponseFormatError { .. } => LlmErrorKind::ResponseFormat,
        LLMError::Generic(_) => LlmErrorKind::Generic,
        LLMError::JsonError(_) => LlmErrorKind::Json,
        LLMError::ToolConfigError(_) => LlmErrorKind::ToolConfig,
        LLMError::NoToolSupport(_) => LlmErrorKind::NoToolSupport,
        LLMError::GuardrailBlocked { .. } => LlmErrorKind::GuardrailBlocked,
        LLMError::GuardrailExecutionFailed { .. } => LlmErrorKind::GuardrailExecutionFailed,
    }
}

/// The bounded type of a provider's error.
pub fn llm_error_type(err: &LLMError) -> (r: &'static str)
    ensures
        r == error_type(variant_of(*err)),
{
    error_type_label(llm_error_kind(err))
}

/// Tokens that a provider reported for one call.
#[derive(Debug, Clone, Copy, PartialEq, Eq, Structural)]
pub struct ChatUsage {
    pub prompt_tokens: u32,
    pub completion_tokens: u32,
}

/// What is known of the price of a call.
#[derive(Debug, Clone, Copy, PartialEq, Eq, Structural)]
pub enum RateLookup {
    /// No rate table is loaded: no cost is counted.
    NoTable,
    /// The table does not list the model: the cost counts as zero.
    Unlisted,
    /// The table lists the model.
    Listed,
}

/// What is recorded of a call.
#[derive(Debug, Clone, Copy, PartialEq, Eq)]
pub struct ChatRecord {
    /// The `status` label of the duration.
    pub status: &'static str,
    pub input_tokens: u64,
    pub output_tokens: u64,
    /// Tokens that the rate is applied to; `None` when no cost is counted.
    pub priced_tokens: Option<u64>,
    /// Whether to warn that no usage was reported.
    pub warn_usage: bool,
    /// Whether to warn that the model has no rate.
    pub warn_rate: bool,
    /// The type of the failure.
    pub error_type: Option<&'static str>,
}

/// The record of a call. A call without usage counts no tokens. Each warning is given on
/// its first occasion for the provider and model.
pub open spec fn record_of(
    outcome: Result<Option<ChatUsage>, LlmErrorKind>,
    rate: RateLookup,
    usage_new: bool,
    rate_new: bool,
) -> ChatRecord {
    match outcome {
        Ok(usage) => {
            let input = match usage {
                Some(u) => u.prompt_tokens as u64,
                None => 0,
            };
            let output = match usage {
                Some(u) => u.completion_tokens as u64,
                None => 0,
            };
            ChatRecord {
                status: "ok",
                input_tokens: input,
                output_tokens: output,
                priced_tokens: if rate == RateLookup::Listed {
                    Some((input + output) as u64)
                } else {
                    None
                },
                warn_usage: usage is None && usage_new,
                warn_rate: rate == RateLookup::Unlisted && rate_new,
                error_type: None,
            }
        },
        Err(kind) => ChatRecord {
            status: "error",
            input_tokens: 0,
            output_tokens: 0,
            priced_tokens: None,
            warn_usage: false,
            warn_rate: false,
            error_type: Some(error_type(kind)),
        },
    }
}

impl<L> TokenTrackingChatProvider<L> {
    /// `r` is the record of a call, and each warning that it gives, or held back, is in the
    /// registry afterwards.
    pub open spec fn tracks(
        self,
        before: WarningRegistry,
        outcome: Result<Option<ChatUsage>, LlmErrorKind>,
        rate: RateLookup,
        r: ChatRecord,
        after: WarningRegistry,
    ) -> bool {
        let pair = (self.provider_label(), self.model_label());
        let no_usage = outcome matches Ok(u) && u is None;
        let unlisted = outcome is Ok && rate == RateLookup::Unlisted;
        &&& r == record_of(
            outcome,
            rate,
            !before.usage_warned().contains(pair),
            !before.rate_warned().contains(pair),
        )
        &&& after.usage_warned() == (if no_usage {
            before.usage_warned().insert(pair)
        } else {
            before.usage_warned()
        })
        &&& after.rate_warned() == (if unlisted {
            before.rate_warned().insert(pair)
        } else {
            before.rate_warned()
        })
    }

    /// Decides what is recorded of a call of the wrapped provider: its usage on success,
    /// or the kind of its failure.
    pub fn track(
        &self,
        registry: &mut WarningRegistry,
        outcome: Result<Option<ChatUsage>, LlmErrorKind>,
        rate: RateLookup,
    ) -> (r: ChatRecord)
        ensures
            self.tracks(*old(registry), outcome, rate, r, *final(registry)),
    {
        match outcome {
            Ok(usage) => {
                let mut warn_usage = false;
                let (input, output): (u64, u64) = match usage {
                    Some(u) => (u.prompt_tokens as u64, u.completion_tokens as u64),
                    None => {
                        warn_usage = registry.first_usage_warning(
                            self.provider.as_str(),
                            self.model.as_str(),
                        );
                        (0, 0)
                    },
                };
                let mut warn_rate = false;
                let priced_tokens = match rate {
                    RateLookup::NoTable => None,
                    RateLookup::Unlisted => {
                        warn_rate = registry.first_rate_warning(
                            self.provider.as_str(),
                            self.model.as_str(),
                        );
                        None
                    },
                    RateLookup::Listed => Some(input + output),
                };
                ChatRecord {
                    status: "ok",
                    input_tokens: input,
                    output_tokens: output,
                    priced_tokens,
                    warn_usage,
                    warn_rate,
                    error_type: None,
                }
            },
            Err(kind) => ChatRecord {
                status: "error",
                input_tokens: 0,
                output_tokens: 0,
                priced_tokens: None,
                warn_usage: false,
                warn_rate: false,
                error_type: Some(error_type_label(kind)),
            },
        }
    }
}

/// A call's outcome with the kind of its error.
pub open spec fn by_kind(outcome: Result<Option<ChatUsage>, &LLMError>) -> Result<
    Option<ChatUsage>,
    LlmErrorKind,
> {
    match outcome {
        Ok(usage) => Ok(usage),
        Err(e) => Err(variant_of(*e)),
    }
}

impl<L> TokenTrackingChatProvider<L> {
    /// Decides what is recorded of a call, as [`TokenTrackingChatProvider::track`] does,
    /// from the provider's own error.
    pub fn track_call(
        &self,
        registry: &mut WarningRegistry,
        outcome: Result<Option<ChatUsage>, &LLMError>,
        rate: RateLookup,
    ) -> (r: ChatRecord)
        ensures
            self.tracks(*old(registry), by_kind(outcome), rate, r, *final(registry)),
    {
        match outcome {
            Ok(usage) => self.track(registry, Ok(usage), rate),
            Err(e) => self.track(registry, Err(llm_error_kind(e)), rate),
        }
    }
}

/// The duration of a call is recorded under one of two status labels, and a failure under
/// one of three types, whatever happened.
pub proof fn law_labels_are_bounded(
    outcome: Result<Option<ChatUsage>, LlmErrorKind>,
    rate: RateLookup,
    usage_new: bool,
    rate_new: bool,
)
    ensures
        ({
            let r = record_of(outcome, rate, usage_new, rate_new);
            &&& r.status == "ok" || r.status == "error"
            &&& r.error_type matches Some(t) ==> t == "server_error" || t == "client_error" || t
                == "parse_error"
            &&& r.error_type is Some <==> outcome is Err
        }),
{
}

/// Once a provider and model were warned about, no later call warns about them again,
/// whatever else was warned about in between.
pub proof fn law_warnings_are_given_once(
    warned: Set<(Seq<char>, Seq<char>)>,
    later: Set<(Seq<char>, Seq<char>)>,
    pair: (Seq<char>, Seq<char>),
    outcome: Result<Option<ChatUsage>, LlmErrorKind>,
    rate: RateLookup,
)
    requires
        warned.insert(pair).subset_of(later),
    ensures
        !record_of(outcome, rate, !later.contains(pair), true).warn_usage,
        !record_of(outcome, rate, true, !later.contains(pair)).warn_rate,
{
    assert(warned.insert(pair).contains(pair));
}

/// The three types of a failure are told apart.
proof fn labels_differ()
    ensures
        "client_error"@ != "parse_error"@,
        "client_error"@ != "server_error"@,
        "parse_error"@ != "server_error"@,
{
    reveal_strlit("client_error");
    reveal_strlit("parse_error");
    reveal_strlit("server_error");
    assert("client_error"@[0] == 'c');
    assert("parse_error"@[0] == 'p');
    assert("server_error"@[0] == 's');
}

/// What is recorded of a failed call: its type, and no tokens, no cost and no warnings. The
/// caller's mistakes are client errors, what could not be read is a parse error, and all else
/// is laid to the server.
pub proof fn law_failure_records_its_type(
    kind: LlmErrorKind,
    rate: RateLookup,
    usage_new: bool,
    rate_new: bool,
)
    ensures
        ({
            let r = record_of(Err(kind), rate, usage_new, rate_new);
            &&& r.status@ == "error"@
            &&& r.input_tokens == 0 && r.output_tokens == 0
            &&& r.priced_tokens is None
            &&& !r.warn_usage && !r.warn_rate
            &&& r.error_type is Some
            &&& r.error_type->0@ == (if kind is Auth || kind is InvalidRequest
                || kind is NoToolSupport || kind is ToolConfig {
                "client_error"@
            } else if kind is Json || kind is ResponseFormat {
                "parse_error"@
            } else {
                "server_error"@
            })
        }),
{
}

/// What is recorded of a call that succeeded: the very tokens that the provider reported, their
/// sum as what is priced exactly when the model has a rate, a warning for missing usage or a
/// missing rate only where it is missing and only the first time.
pub proof fn law_success_records_the_tokens(
    usage: Option<ChatUsage>,
    rate: RateLookup,
    usage_new: bool,
    rate_new: bool,
)
    ensures
        ({
            let r = record_of(Ok(usage), rate, usage_new, rate_new);
            &&& r.status@ == "ok"@
            &&& r.error_type is None
            &&& usage matches Some(u) ==> r.input_tokens == u.prompt_tokens && r.output_tokens
                == u.completion_tokens
            &&& usage is None ==> r.input_tokens == 0 && r.output_tokens == 0
            &&& r.priced_tokens is Some <==> rate is Listed
            &&& r.priced_tokens matches Some(n) ==> n == r.input_tokens + r.output_tokens
            &&& r.warn_usage <==> usage is None && usage_new
            &&& r.warn_rate <==> rate is Unlisted && rate_new
        }),
{
}

/// A tracked call, from its registry to its record: a warning is given exactly when its cause
/// is there and the provider and model were not warned about before, and it is remembered for
/// them alone.
pub proof fn law_warning_is_given_and_remembered<L>(
    tracker: TokenTrackingChatProvider<L>,
    before: WarningRegistry,
    outcome: Result<Option<ChatUsage>, LlmErrorKind>,
    rate: RateLookup,
    r: ChatRecord,
    after: WarningRegistry,
    pair: (Seq<char>, Seq<char>),
)
    requires
        tracker.tracks(before, outcome, rate, r, after),
    ensures
        ({
            let own = (tracker.provider_label(), tracker.model_label());
            let no_usage = outcome == Ok::<Option<ChatUsage>, LlmErrorKind>(None);
            let no_rate = outcome is Ok && rate is Unlisted;
            &&& r.warn_usage <==> no_usage && !before.usage_warned().contains(own)
            &&& r.warn_rate <==> no_rate && !before.rate_warned().contains(own)
            &&& after.usage_warned().contains(pair) <==> before.usage_warned().contains(pair) || (
            no_usage && pair == own)
            &&& after.rate_warned().contains(pair) <==> before.rate_warned().contains(pair) || (
            no_rate && pair == own)
        }),
{
}

}
