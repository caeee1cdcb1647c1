//! Fire-and-forget background ingestion pipeline.
//!
//! - [`ingestor`] — the enqueue side: queue accounting and batch registration
//! - [`deferred_pipeline`] — per-request decisions of both phases
//! - [`worker`] — the worker loop as a state machine
//! - [`verify_stage`] — the entity-write stage of one episode
//! - [`stage3`] — the row inserts of that stage
//! - [`batch_tracker`] — terminal detection for named batches

use vstd::prelude::*;
use vstd::std_specs::convert::FromSpecImpl;
use vstd::string::StringExecFns;
use crate::config::ContentType;
use crate::error::Error;
use crate::ieee::Binary64;
use crate::text::{decimal, owned, render_u64};

pub mod batch_tracker;
pub mod deferred_pipeline;
pub mod ingestor;
pub mod stage3;
pub mod verify_stage;
pub mod worker;

verus! {

/// A wall-clock instant in UTC, as seconds since the epoch and nanoseconds within
/// the second.
#[derive(Debug, Clone, Copy, PartialEq, Eq, Structural)]
pub struct Timestamp {
    pub secs: i64,
    pub nanos: u32,
}

/// Work item queued for the worker.
#[derive(Debug, Clone)]
pub struct IngestRequest {
    pub text: String,
    pub reference_time: Option<Timestamp>,
    /// The anchor that the caller declared for the document; never collapsed with
    /// `reference_time`.
    pub declared_reference_time: Option<Timestamp>,
    pub group_id: Option<String>,
    pub content_type: Option<ContentType>,
    pub batch_id: Option<String>,
}

/// Work item queued for the second phase, created after a successful first phase.
#[derive(Debug, Clone)]
pub struct DeferredRequest {
    pub text: String,
    pub reference_time: Option<Timestamp>,
    pub declared_reference_time: Option<Timestamp>,
    pub group_id: Option<String>,
    pub content_type: Option<ContentType>,
    /// The episode that the first phase committed.
    pub episode_id: i64,
    /// Names found in the first phase, hints for the extractor.
    pub ner_entity_names: Vec<String>,
    pub batch_id: Option<String>,
}

/// Stage of an episode, as an event sink is told.
#[derive(Debug, Clone)]
pub enum IngestStatus {
    Pending,
    Extracting,
    EntitiesReady,
    Complete,
    Failed(String),
}

/// What an [`IngestStatus`] says.
pub enum StatusView {
    Pending,
    Extracting,
    EntitiesReady,
    Complete,
    Failed(Seq<char>),
}

impl View for IngestStatus {
    type V = StatusView;

    open spec fn view(&self) -> StatusView {
        match *self {
            IngestStatus::Pending => StatusView::Pending,
            IngestStatus::Extracting => StatusView::Extracting,
            IngestStatus::EntitiesReady => StatusView::EntitiesReady,
            IngestStatus::Complete => StatusView::Complete,
            IngestStatus::Failed(detail) => StatusView::Failed(detail@),
        }
    }
}

/// Coarse category of an ingestion failure observed after the fact.
#[derive(Debug, Clone, Copy, PartialEq, Eq, Structural)]
pub enum IngestErrorKind {
    Database,
    Extraction,
    Resolution,
    Llm,
    Embedding,
    Other,
}

/// The category of an error: the five that name a subsystem keep it, everything
/// else is `Other`.
pub open spec fn kind_of(e: Error) -> IngestErrorKind {
    match e {
        Error::Database(_) => IngestErrorKind::Database,
        Error::Extraction(_) => IngestErrorKind::Extraction,
        Error::Resolution(_) => IngestErrorKind::Resolution,
        Error::Llm(_) => IngestErrorKind::Llm,
        Error::Embedding(_) => IngestErrorKind::Embedding,
        _ => IngestErrorKind::Other,
    }
}

impl<'a> FromSpecImpl<&'a Error> for IngestErrorKind {
    open spec fn obeys_from_spec() -> bool {
        true
    }

    open spec fn from_spec(e: &'a Error) -> IngestErrorKind {
        kind_of(*e)
    }
}

impl<'a> From<&'a Error> for IngestErrorKind {
    fn from(e: &'a Error) -> (r: Self) {
        match e {
            Error::Database(_) => IngestErrorKind::Database,
            Error::Extraction(_) => IngestErrorKind::Extraction,
            Error::Resolution(_) => IngestErrorKind::Resolution,
            Error::Llm(_) => IngestErrorKind::Llm,
            Error::Embedding(_) => IngestErrorKind::Embedding,
            _ => IngestErrorKind::Other,
        }
    }
}

/// An ingestion failure observed after the fact.
#[derive(Debug, Clone)]
pub struct IngestError {
    /// First 256 characters of the text that failed.
    pub text_preview: String,
    /// Wall-clock time the failure was recorded.
    pub failed_at: Timestamp,
    /// Human-readable error message.
    pub message: String,
    /// Coarse failure category.
    pub kind: IngestErrorKind,
    /// Episode whose second phase failed; `0` when the first phase failed and no
    /// episode was committed.
    pub episode_id: i64,
}

/// What an [`IngestError`] says.
pub struct IngestErrorView {
    pub text_preview: Seq<char>,
    pub failed_at: Timestamp,
    pub message: Seq<char>,
    pub kind: IngestErrorKind,
    pub episode_id: i64,
}

impl View for IngestError {
    type V = IngestErrorView;

    open spec fn view(&self) -> IngestErrorView {
        IngestErrorView {
            text_preview: self.text_preview@,
            failed_at: self.failed_at,
            message: self.message@,
            kind: self.kind,
            episode_id: self.episode_id,
        }
    }
}

/// Errors of an enqueue.
#[derive(Debug, Clone, Copy, PartialEq, Eq, Structural)]
pub enum IngestSendError {
    /// The work channel is at the given capacity.
    Full(usize),
    /// The worker has exited.
    Disconnected,
}

impl IngestSendError {
    /// The rendered message.
    pub open spec fn text(self) -> Seq<char> {
        match self {
            IngestSendError::Full(capacity) => "ingest queue full (capacity="@ + decimal(
                capacity as nat,
            ) + ")"@,
            IngestSendError::Disconnected => "ingest worker disconnected"@,
        }
    }

    /// Renders the message.
    pub fn message(&self) -> (r: String)
        ensures
            r@ == self.text(),
    {
        match self {
            IngestSendError::Full(capacity) => {
                let mut out: String = owned("ingest queue full (capacity=");
                out.append(render_u64(*capacity as u64).as_str());
                out.append(")");
                out
            },
            IngestSendError::Disconnected => owned("ingest worker disconnected"),
        }
    }
}

/// Token-bucket rate limit for the second phase's model calls.
#[derive(Debug, Clone, Copy)]
pub struct RateLimit {
    /// Tokens replenished per second.
    pub tokens_per_second: Binary64,
    /// Most tokens that can accumulate.
    pub burst: usize,
}

/// Configuration of the background ingestor; `S` is the type of its event sink.
#[derive(Debug, Clone)]
pub struct IngestorConfig<S> {
    /// Capacity of the work channel.
    pub channel_capacity: usize,
    /// Capacity of the error feedback channel.
    pub error_channel_capacity: usize,
    /// Name of the worker thread.
    pub thread_name: String,
    /// Whether the second phase runs at all.
    pub deferred_extraction_enabled: bool,
    /// Concurrent second-phase tasks.
    pub deferred_concurrency: usize,
    /// Rate limit of the second phase's model calls; `None` is unlimited.
    pub llm_rate_limit: Option<RateLimit>,
    /// Receiver of the pipeline's callbacks.
    pub sink: Option<S>,
}

impl<S> IngestorConfig<S> {
    /// Sets the event sink and keeps every other setting.
    pub fn with_sink(self, sink: S) -> (r: Self)
        ensures
            r == (IngestorConfig { sink: Some(sink), ..self }),
    {
        IngestorConfig {
            channel_capacity: self.channel_capacity,
            error_channel_capacity: self.error_channel_capacity,
            thread_name: self.thread_name,
            deferred_extraction_enabled: self.deferred_extraction_enabled,
            deferred_concurrency: self.deferred_concurrency,
            llm_rate_limit: self.llm_rate_limit,
            sink: Some(sink),
        }
    }
}

impl<S> Default for IngestorConfig<S> {
    fn default() -> (r: Self)
        ensures
            r.channel_capacity == 64,
            r.error_channel_capacity == 256,
            r.thread_name@ == "rql-ingestor"@,
            r.deferred_extraction_enabled,
            r.deferred_concurrency == 1,
            r.llm_rate_limit is None,
            r.sink is None,
    {
        IngestorConfig {
            channel_capacity: 64,
            error_channel_capacity: 256,
            thread_name: owned("rql-ingestor"),
            deferred_extraction_enabled: true,
            deferred_concurrency: 1,
            llm_rate_limit: None,
            sink: None,
        }
    }
}

/// Each of the five subsystems has a category of its own, and every other error is `Other`.
pub proof fn law_categories_name_the_subsystem(e: Error)
    ensures
        kind_of(e) == IngestErrorKind::Database <==> e is Database,
        kind_of(e) == IngestErrorKind::Extraction <==> e is Extraction,
        kind_of(e) == IngestErrorKind::Resolution <==> e is Resolution,
        kind_of(e) == IngestErrorKind::Llm <==> e is Llm,
        kind_of(e) == IngestErrorKind::Embedding <==> e is Embedding,
{
}

/// A refused send says which it was, and a full queue how much it holds.
pub proof fn law_refusals_say_why(capacity: usize)
    ensures
        IngestSendError::Full(capacity).text() == "ingest queue full (capacity="@ + decimal(
            capacity as nat,
        ) + ")"@,
        IngestSendError::Disconnected.text() == "ingest worker disconnected"@,
{
}

/// A stage is told as it is, and a failure in its own words.
pub proof fn law_stage_is_told_as_it_is(s: IngestStatus)
    ensures
        s is Pending <==> s@ is Pending,
        s is Extracting <==> s@ is Extracting,
        s is EntitiesReady <==> s@ is EntitiesReady,
        s is Complete <==> s@ is Complete,
        s matches IngestStatus::Failed(detail) ==> s@ == StatusView::Failed(detail@),
{
}

/// A record says what it holds.
pub proof fn law_record_is_read_as_it_is(r: IngestError)
    ensures
        r@.text_preview == r.text_preview@,
        r@.failed_at == r.failed_at,
        r@.message == r.message@,
        r@.kind == r.kind,
        r@.episode_id == r.episode_id,
{
}

}
