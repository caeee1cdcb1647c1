//! Per-request decisions of the two ingestion phases.
//!
//! - [`process_item`] — what the first phase of one request leads to
//! - [`DeferredRun`] — the second phase: entity write, rate limit, fact extraction
//!
//! No failure of a request stops the worker. Each is reported to the event sink and
//! to the error channel.

use vstd::prelude::*;
use vstd::string::StringExecFns;
use crate::background::batch_tracker::DeferredOutcome;
use crate::background::{
    kind_of, DeferredRequest, IngestError, IngestErrorKind, IngestErrorView, IngestRequest,
    IngestStatus, StatusView, Timestamp,
};
use crate::error::Error;
use crate::text::{owned, prefix, take_chars};

verus! {

/// Characters of the failed text that an error record keeps.
pub const PREVIEW_CHARS: usize = 256;

/// What the sink is told of a failure.
#[derive(Debug, Clone)]
pub enum IngestionErrorKind {
    /// A provider behind the engine failed.
    ProviderError { provider_name: String, detail: String },
    /// What came back could not be used.
    ParseFailure { stage: String, detail: String },
}

/// What an [`IngestionErrorKind`] says.
pub enum ErrorKindView {
    ProviderError { provider_name: Seq<char>, detail: Seq<char> },
    ParseFailure { stage: Seq<char>, detail: Seq<char> },
}

impl View for IngestionErrorKind {
    type V = ErrorKindView;

    open spec fn view(&self) -> ErrorKindView {
        match *self {
            IngestionErrorKind::ProviderError { provider_name, detail } =>
                ErrorKindView::ProviderError { provider_name: provider_name@, detail: detail@ },
            IngestionErrorKind::ParseFailure { stage, detail } => ErrorKindView::ParseFailure {
                stage: stage@,
                detail: detail@,
            },
        }
    }
}

impl IngestionErrorKind {
    /// Metric label of the kind.
    pub fn label(&self) -> (r: &'static str)
        ensures
            r == (if self is ParseFailure {
                "ParseFailure"
            } else {
                "ProviderError"
            }),
    {
        match self {
            IngestionErrorKind::ParseFailure { .. } => "ParseFailure",
            IngestionErrorKind::ProviderError { .. } => "ProviderError",
        }
    }
}

/// Where in the pipeline a failure happened.
#[derive(Debug, Clone, Copy, PartialEq, Eq, Structural)]
pub enum FailedPhase {
    /// The first phase; no episode was committed.
    Phase1,
    /// The entity write of the second phase.
    VerifyStage,
    /// The fact extraction of the second phase.
    Deferred,
}

impl FailedPhase {
    /// Name under which a parse failure of the phase is reported.
    pub open spec fn stage_name(self) -> Seq<char> {
        match self {
            FailedPhase::Phase1 => "phase1"@,
            FailedPhase::VerifyStage => "verify_stage"@,
            FailedPhase::Deferred => "deferred"@,
        }
    }

    /// What stands before the error's own message in the error record.
    pub open spec fn message_prefix(self) -> Seq<char> {
        match self {
            FailedPhase::Phase1 => seq![],
            FailedPhase::VerifyStage => "verify_stage: "@,
            FailedPhase::Deferred => "deferred: "@,
        }
    }

    /// Metric label of the phase.
    pub open spec fn text(self) -> &'static str {
        match self {
            FailedPhase::Phase1 => "phase1",
            FailedPhase::VerifyStage => "phase1_verify_fail",
            FailedPhase::Deferred => "phase2",
        }
    }

    /// Metric label of the phase.
    pub fn label(&self) -> (r: &'static str)
        ensures
            r == self.text(),
            *self == FailedPhase::Phase1 ==> r == "phase1",
            *self == FailedPhase::VerifyStage ==> r == "phase1_verify_fail",
            *self == FailedPhase::Deferred ==> r == "phase2",
    {
        match self {
            FailedPhase::Phase1 => "phase1",
            FailedPhase::VerifyStage => "phase1_verify_fail",
            FailedPhase::Deferred => "phase2",
        }
    }
}

/// How a failure is presented to the sink: a failure of extraction or resolution is
/// a parse failure of its stage, every other one a failure of the provider that its
/// category names.
pub open spec fn presented(kind: IngestErrorKind, phase: FailedPhase, detail: Seq<char>) -> ErrorKindView {
    match kind {
        IngestErrorKind::Llm => ErrorKindView::ProviderError { provider_name: "llm"@, detail },
        IngestErrorKind::Embedding => ErrorKindView::ProviderError {
            provider_name: "embedding"@,
            detail,
        },
        IngestErrorKind::Database => ErrorKindView::ProviderError {
            provider_name: "database"@,
            detail,
        },
        IngestErrorKind::Extraction => ErrorKindView::ParseFailure {
            stage: phase.stage_name() + "_extraction"@,
            detail,
        },
        IngestErrorKind::Resolution => ErrorKindView::ParseFailure {
            stage: phase.stage_name() + "_resolution"@,
            detail,
        },
        IngestErrorKind::Other => ErrorKindView::ProviderError {
            provider_name: "unknown"@,
            detail,
        },
    }
}

/// The failure event of the sink.
#[derive(Debug, Clone)]
pub struct IngestionError {
    /// The entity or edge that failed; whole-request failures name none.
    pub entity_or_edge_ref: Option<String>,
    pub error_kind: IngestionErrorKind,
    pub is_retryable: bool,
}

/// The event that reports `e` from `phase`. Only the first phase can be retried.
pub open spec fn is_event_of(event: IngestionError, e: Error, phase: FailedPhase) -> bool {
    &&& event.entity_or_edge_ref is None
    &&& event.error_kind@ == presented(kind_of(e), phase, e.text())
    &&& event.is_retryable == (phase == FailedPhase::Phase1)
}

/// The error record of `e`, which happened in `phase` to `text`.
pub open spec fn error_record(
    e: Error,
    phase: FailedPhase,
    text: Seq<char>,
    episode_id: i64,
    now: Timestamp,
) -> IngestErrorView {
    IngestErrorView {
        text_preview: prefix(text, PREVIEW_CHARS as nat),
        failed_at: now,
        message: phase.message_prefix() + e.text(),
        kind: kind_of(e),
        episode_id,
    }
}

/// The sink's view of a failure.
pub fn ingestion_error(e: &Error, phase: FailedPhase) -> (r: IngestionError)
    ensures
        is_event_of(r, *e, phase),
        r.entity_or_edge_ref is None,
        r.is_retryable <==> phase == FailedPhase::Phase1,
{
    let detail: String = e.message();
    let kind = IngestErrorKind::from(e);
    let stage_name: &str = match phase {
        FailedPhase::Phase1 => "phase1",
        FailedPhase::VerifyStage => "verify_stage",
        FailedPhase::Deferred => "deferred",
    };
    let error_kind = match kind {
        IngestErrorKind::Llm => IngestionErrorKind::ProviderError {
            provider_name: owned("llm"),
            detail,
        },
        IngestErrorKind::Embedding => IngestionErrorKind::ProviderError {
            provider_name: owned("embedding"),
            detail,
        },
        IngestErrorKind::Database => IngestionErrorKind::ProviderError {
            provider_name: owned("database"),
            detail,
        },
        IngestErrorKind::Extraction => IngestionErrorKind::ParseFailure {
            stage: owned(stage_name).concat("_extraction"),
            detail,
        },
        IngestErrorKind::Resolution => IngestionErrorKind::ParseFailure {
            stage: owned(stage_name).concat("_resolution"),
            detail,
        },
        IngestErrorKind::Other => IngestionErrorKind::ProviderError {
            provider_name: owned("unknown"),
            detail,
        },
    };
    let is_retryable = match phase {
        FailedPhase::Phase1 => true,
        _ => false,
    };
    IngestionError { entity_or_edge_ref: None, error_kind, is_retryable }
}

/// The record of a failure for the error channel.
pub fn ingest_error(
    e: &Error,
    phase: FailedPhase,
    text: &String,
    episode_id: i64,
    now: Timestamp,
) -> (r: IngestError)
    ensures
        r@ == error_record(*e, phase, text@, episode_id, now),
        r.failed_at == now,
        r.episode_id == episode_id,
        r.text_preview@.len() == (if text@.len() <= 256 {
            text@.len()
        } else {
            256
        }),
        r.text_preview@ == text@.take(r.text_preview@.len() as int),
{
    let mut message: String = match phase {
        FailedPhase::Phase1 => String::new(),
        FailedPhase::VerifyStage => owned("verify_stage: "),
        FailedPhase::Deferred => owned("deferred: "),
    };
    message.append(e.message().as_str());
    assert(text@.take(text@.len() as int) =~= text@);
    IngestError {
        text_preview: take_chars(text.as_str(), PREVIEW_CHARS),
        failed_at: now,
        message,
        kind: IngestErrorKind::from(e),
        episode_id,
    }
}

/// What the first phase brought back: the committed episode and the names found.
#[derive(Debug, Clone)]
pub struct Phase1Result {
    pub episode_id: i64,
    pub candidate_names: Vec<String>,
}

/// What becomes of a request after its first phase.
#[derive(Debug)]
pub enum ItemOutcome {
    /// The second phase is to be queued.
    Deferred(DeferredRequest),
    /// The second phase is switched off; the request is done.
    Done,
    /// The first phase failed: the event for the sink, then the record for the error
    /// channel.
    Failed { event: IngestionError, record: IngestError },
}

/// The second-phase request of `req`, whose first phase committed `found`.
pub open spec fn deferred_of(req: IngestRequest, found: Phase1Result) -> DeferredRequest {
    DeferredRequest {
        text: req.text,
        reference_time: req.reference_time,
        declared_reference_time: req.declared_reference_time,
        group_id: req.group_id,
        content_type: req.content_type,
        episode_id: found.episode_id,
        ner_entity_names: found.candidate_names,
        batch_id: req.batch_id,
    }
}

/// The stage that the sink is told when the worker takes a request.
pub fn item_entered() -> (r: IngestStatus)
    ensures
        r@ == StatusView::Pending,
{
    IngestStatus::Pending
}

/// Decides what follows the first phase of `req`; `now` is the time at which a
/// failure is recorded.
pub fn process_item(
    req: IngestRequest,
    deferred_enabled: bool,
    reply: Result<Phase1Result, Error>,
    now: Timestamp,
) -> (r: ItemOutcome)
    ensures
        match reply {
            Ok(found) => if deferred_enabled {
                &&& r == ItemOutcome::Deferred(deferred_of(req, found))
                &&& r matches ItemOutcome::Deferred(d) && d.text == req.text && d.reference_time
                    == req.reference_time && d.declared_reference_time
                    == req.declared_reference_time && d.group_id == req.group_id
                    && d.content_type == req.content_type && d.batch_id == req.batch_id
                    && d.episode_id == found.episode_id && d.ner_entity_names
                    == found.candidate_names
            } else {
                r is Done
            },
            Err(e) => match r {
                ItemOutcome::Failed { event, record } => {
                    &&& is_event_of(event, e, FailedPhase::Phase1)
                    &&& record@ == error_record(e, FailedPhase::Phase1, req.text@, 0, now)
                },
                _ => false,
            },
        },
{
    match reply {
        Ok(found) => {
            if deferred_enabled {
                ItemOutcome::Deferred(
                    DeferredRequest {
                        text: req.text,
                        reference_time: req.reference_time,
                        declared_reference_time: req.declared_reference_time,
                        group_id: req.group_id,
                        content_type: req.content_type,
                        episode_id: found.episode_id,
                        ner_entity_names: found.candidate_names,
                        batch_id: req.batch_id,
                    },
                )
            } else {
                ItemOutcome::Done
            }
        },
        Err(e) => ItemOutcome::Failed {
            event: ingestion_error(&e, FailedPhase::Phase1),
            record: ingest_error(&e, FailedPhase::Phase1, &req.text, 0, now),
        },
    }
}

/// The step in which the second phase of a committed episode failed.
#[derive(Debug, Clone, Copy, PartialEq, Eq, Structural)]
pub enum GhostStep {
    VerifyStage,
    IngestDeferred,
}

impl GhostStep {
    /// Metric label of the step.
    pub fn label(&self) -> (r: &'static str)
        ensures
            r == (match *self {
                GhostStep::VerifyStage => "verify_stage",
                GhostStep::IngestDeferred => "ingest_deferred",
            }),
    {
        match self {
            GhostStep::VerifyStage => "verify_stage",
            GhostStep::IngestDeferred => "ingest_deferred",
        }
    }
}

/// Something that the second phase issues without waiting for an outcome.
#[derive(Debug)]
pub enum DeferredNotice {
    /// Count an episode whose second phase failed in the named step.
    GhostEpisode(GhostStep),
    /// Put a record on the error channel; it is dropped when the channel is full.
    SendError(IngestError),
    /// Tell the sink of a failure, and count it under the phase.
    SinkError { event: IngestionError, phase: FailedPhase },
    /// Tell the sink of a stage change.
    StageChange(IngestStatus),
    /// Count a wait for the rate limit, under the namespace.
    Throttled(String),
    /// Take the token that the wait was for; there is nobody left to refuse it.
    RetakeToken,
}

/// What a [`DeferredNotice`] says.
pub enum DeferredNoticeView {
    GhostEpisode(GhostStep),
    SendError(IngestErrorView),
    SinkError {
        about: Option<String>,
        kind: ErrorKindView,
        is_retryable: bool,
        phase: FailedPhase,
    },
    StageChange(StatusView),
    Throttled(Seq<char>),
    RetakeToken,
}

impl View for DeferredNotice {
    type V = DeferredNoticeView;

    open spec fn view(&self) -> DeferredNoticeView {
        match *self {
            DeferredNotice::GhostEpisode(step) => DeferredNoticeView::GhostEpisode(step),
            DeferredNotice::SendError(record) => DeferredNoticeView::SendError(record@),
            DeferredNotice::SinkError { event, phase } => DeferredNoticeView::SinkError {
                about: event.entity_or_edge_ref,
                kind: event.error_kind@,
                is_retryable: event.is_retryable,
                phase,
            },
            DeferredNotice::StageChange(status) => DeferredNoticeView::StageChange(status@),
            DeferredNotice::Throttled(ns) => DeferredNoticeView::Throttled(ns@),
            DeferredNotice::RetakeToken => DeferredNoticeView::RetakeToken,
        }
    }
}

/// What the second phase needs done next.
#[derive(Debug, Clone, Copy, PartialEq, Eq, Structural)]
pub enum DeferredStep {
    /// Run the entity-write stage; the reply is [`DeferredReply::Verified`].
    RunVerifyStage,
    /// Try to take a token of the rate limit; the reply is [`DeferredReply::Token`].
    TakeToken,
    /// Wait until the rate limit has a token; the reply is [`DeferredReply::Waited`].
    Wait,
    /// Extract facts; the reply is [`DeferredReply::Facts`].
    ExtractFacts,
    /// The second phase is over.
    Finish(DeferredOutcome),
}

/// How a step of the second phase went.
#[derive(Debug)]
pub enum DeferredReply {
    /// The entity write, and when it ended.
    Verified(Result<usize, Error>, Timestamp),
    /// Whether a token was to be had at once.
    Token(bool),
    Waited,
    /// The number of facts, and when the extraction ended.
    Facts(Result<usize, Error>, Timestamp),
}

impl DeferredStep {
    /// `reply` answers this step.
    pub open spec fn expects(self, reply: DeferredReply) -> bool {
        match self {
            DeferredStep::RunVerifyStage => reply is Verified,
            DeferredStep::TakeToken => reply is Token,
            DeferredStep::Wait => reply is Waited,
            DeferredStep::ExtractFacts => reply is Facts,
            DeferredStep::Finish(_) => false,
        }
    }
}

/// The second phase of one request.
#[derive(Debug)]
pub struct DeferredRun {
    pub req: DeferredRequest,
    /// Whether a rate limit is configured.
    pub limited: bool,
    /// The step whose reply is awaited.
    pub step: DeferredStep,
}

/// The namespace of a request; `default` when it names none.
pub open spec fn namespace_of(req: DeferredRequest) -> Seq<char> {
    match req.group_id {
        Some(g) => g@,
        None => "default"@,
    }
}

/// The namespace of a request; `default` when it names none.
pub fn request_namespace(req: &DeferredRequest) -> (r: String)
    ensures
        r@ == namespace_of(*req),
        req.group_id matches Some(g) ==> r@ == g@,
        req.group_id is None ==> r@ == "default"@,
{
    match &req.group_id {
        Some(g) => g.clone(),
        None => owned("default"),
    }
}

/// The sink's view of a failure as a notice.
pub open spec fn sink_error(e: Error, phase: FailedPhase) -> DeferredNoticeView {
    DeferredNoticeView::SinkError {
        about: None,
        kind: presented(kind_of(e), phase, e.text()),
        is_retryable: phase == FailedPhase::Phase1,
        phase,
    }
}

/// The step after the entity write: facts are extracted even when the write failed,
/// once the rate limit has been asked where there is one.
pub open spec fn after_verify(limited: bool) -> DeferredStep {
    if limited {
        DeferredStep::TakeToken
    } else {
        DeferredStep::ExtractFacts
    }
}

/// How the second phase answers a reply: the notices in order, and the next step.
pub open spec fn deferred_transition(
    req: DeferredRequest,
    limited: bool,
    reply: DeferredReply,
) -> (Seq<DeferredNoticeView>, DeferredStep) {
    match reply {
        DeferredReply::Verified(Ok(_), _) => (seq![], after_verify(limited)),
        DeferredReply::Verified(Err(e), now) => (
            seq![
                DeferredNoticeView::GhostEpisode(GhostStep::VerifyStage),
                DeferredNoticeView::SendError(
                    error_record(e, FailedPhase::VerifyStage, req.text@, req.episode_id, now),
                ),
                sink_error(e, FailedPhase::VerifyStage),
            ],
            after_verify(limited),
        ),
        DeferredReply::Token(true) => (seq![], DeferredStep::ExtractFacts),
        DeferredReply::Token(false) => (
            seq![DeferredNoticeView::Throttled(namespace_of(req))],
            DeferredStep::Wait,
        ),
        DeferredReply::Waited => (
            seq![DeferredNoticeView::RetakeToken],
            DeferredStep::ExtractFacts,
        ),
        DeferredReply::Facts(Ok(_), _) => (
            seq![DeferredNoticeView::StageChange(StatusView::Complete)],
            DeferredStep::Finish(DeferredOutcome::Succeeded),
        ),
        DeferredReply::Facts(Err(e), now) => (
            seq![
                DeferredNoticeView::GhostEpisode(GhostStep::IngestDeferred),
                DeferredNoticeView::StageChange(StatusView::Failed(e.text())),
                sink_error(e, FailedPhase::Deferred),
                DeferredNoticeView::SendError(
                    error_record(e, FailedPhase::Deferred, req.text@, req.episode_id, now),
                ),
            ],
            DeferredStep::Finish(DeferredOutcome::Failed),
        ),
    }
}

impl DeferredRun {
    /// Starts the second phase of `req`; its first step is the entity write.
    pub fn start(req: DeferredRequest, limited: bool) -> (r: DeferredRun)
        ensures
            r.req == req,
            r.limited == limited,
            r.step == DeferredStep::RunVerifyStage,
    {
        DeferredRun { req, limited, step: DeferredStep::RunVerifyStage }
    }

    /// Takes the reply to the last step; the notices are to be issued in order, and
    /// [`DeferredRun::step`] says what follows them.
    pub fn advance(&mut self, reply: DeferredReply) -> (r: Vec<DeferredNotice>)
        requires
            old(self).step.expects(reply),
        ensures
            final(self).req == old(self).req,
            final(self).limited == old(self).limited,
            r@.map_values(|n: DeferredNotice| n@) == deferred_transition(
                old(self).req,
                old(self).limited,
                reply,
            ).0,
            final(self).step == deferred_transition(old(self).req, old(self).limited, reply).1,
    {
        let ghost goal = deferred_transition(self.req, self.limited, reply).0;
        let notices: Vec<DeferredNotice> = match reply {
            DeferredReply::Verified(result, now) => {
                self.step = if self.limited {
                    DeferredStep::TakeToken
                } else {
                    DeferredStep::ExtractFacts
                };
                match result {
                    Ok(_) => vec![],
                    Err(e) => vec![
                        DeferredNotice::GhostEpisode(GhostStep::VerifyStage),
                        DeferredNotice::SendError(
                            ingest_error(
                                &e,
                                FailedPhase::VerifyStage,
                                &self.req.text,
                                self.req.episode_id,
                                now,
                            ),
                        ),
                        DeferredNotice::SinkError {
                            event: ingestion_error(&e, FailedPhase::VerifyStage),
                            phase: FailedPhase::VerifyStage,
                        },
                    ],
                }
            },
            DeferredReply::Token(true) => {
                self.step = DeferredStep::ExtractFacts;
                vec![]
            },
            DeferredReply::Token(false) => {
                self.step = DeferredStep::Wait;
                vec![DeferredNotice::Throttled(request_namespace(&self.req))]
            },
            DeferredReply::Waited => {
                self.step = DeferredStep::ExtractFacts;
                vec![DeferredNotice::RetakeToken]
            },
            DeferredReply::Facts(result, now) => match result {
                Ok(_) => {
                    self.step = DeferredStep::Finish(DeferredOutcome::Succeeded);
                    vec![DeferredNotice::StageChange(IngestStatus::Complete)]
                },
                Err(e) => {
                    self.step = DeferredStep::Finish(DeferredOutcome::Failed);
                    vec![
                        DeferredNotice::GhostEpisode(GhostStep::IngestDeferred),
                        DeferredNotice::StageChange(IngestStatus::Failed(e.message())),
                        DeferredNotice::SinkError {
                            event: ingestion_error(&e, FailedPhase::Deferred),
                            phase: FailedPhase::Deferred,
                        },
                        DeferredNotice::SendError(
                            ingest_error(
                                &e,
                                FailedPhase::Deferred,
                                &self.req.text,
                                self.req.episode_id,
                                now,
                            ),
                        ),
                    ]
                },
            },
        };
        assert(notices@.map_values(|n: DeferredNotice| n@) =~= goal);
        notices
    }
}

/// Each reply answers the step before it, from `step` on.
pub open spec fn deferred_answered(
    req: DeferredRequest,
    limited: bool,
    step: DeferredStep,
    replies: Seq<DeferredReply>,
) -> bool
    decreases replies.len(),
{
    replies.len() == 0 || (step.expects(replies[0]) && deferred_answered(
        req,
        limited,
        deferred_transition(req, limited, replies[0]).1,
        replies.drop_first(),
    ))
}

/// The step that a run of replies leads to.
pub open spec fn deferred_end(
    req: DeferredRequest,
    limited: bool,
    step: DeferredStep,
    replies: Seq<DeferredReply>,
) -> DeferredStep
    decreases replies.len(),
{
    if replies.len() == 0 {
        step
    } else {
        deferred_end(
            req,
            limited,
            deferred_transition(req, limited, replies[0]).1,
            replies.drop_first(),
        )
    }
}

/// Steps that can still follow.
pub open spec fn steps_left(limited: bool, step: DeferredStep) -> nat {
    match step {
        DeferredStep::RunVerifyStage => if limited {
            4
        } else {
            2
        },
        DeferredStep::TakeToken => 3,
        DeferredStep::Wait => 2,
        DeferredStep::ExtractFacts => 1,
        DeferredStep::Finish(_) => 0,
    }
}

/// The second phase always reaches fact extraction, whatever became of the entity
/// write, and its outcome is that of the fact extraction alone. Without a rate limit
/// it takes two replies, with one at most four.
pub proof fn law_facts_decide_the_outcome(
    req: DeferredRequest,
    limited: bool,
    step: DeferredStep,
    replies: Seq<DeferredReply>,
)
    requires
        deferred_answered(req, limited, step, replies),
        !(step is Finish),
    ensures
        replies.len() <= steps_left(limited, step),
        deferred_end(req, limited, step, replies) is Finish <==> replies.len() > 0
            && replies.last() is Facts,
        deferred_end(req, limited, step, replies) matches DeferredStep::Finish(outcome) ==> (outcome
            == DeferredOutcome::Succeeded <==> replies.last()->Facts_0 is Ok),
    decreases replies.len(),
{
    if replies.len() > 0 {
        let next = deferred_transition(req, limited, replies[0]).1;
        let rest = replies.drop_first();
        if next is Finish {
            assert(deferred_answered(req, limited, next, rest));
            assert(rest.len() == 0);
        } else {
            law_facts_decide_the_outcome(req, limited, next, rest);
            if rest.len() > 0 {
                assert(rest.last() == replies.last());
            }
        }
    }
}

/// Every error record of the second phase carries the id of its episode, so that the
/// episode can be found again, and a preview of bounded length.
pub proof fn law_records_name_their_episode(
    req: DeferredRequest,
    limited: bool,
    reply: DeferredReply,
    i: int,
)
    requires
        0 <= i < deferred_transition(req, limited, reply).0.len(),
        deferred_transition(req, limited, reply).0[i] is SendError,
    ensures
        deferred_transition(req, limited, reply).0[i]->SendError_0.episode_id == req.episode_id,
        deferred_transition(req, limited, reply).0[i]->SendError_0.text_preview.len()
            <= PREVIEW_CHARS,
{
}

/// The second phase gets what was sent: the text, both times, the namespace, the content
/// type and the batch of the request, and with them the episode and the names that the
/// first phase found. So it writes into the namespace that the caller named, and into the
/// default one only where the caller named none.
pub proof fn law_second_phase_gets_what_was_sent(req: IngestRequest, found: Phase1Result)
    ensures
        ({
            let d = deferred_of(req, found);
            &&& d.text == req.text
            &&& d.reference_time == req.reference_time
            &&& d.declared_reference_time == req.declared_reference_time
            &&& d.group_id == req.group_id
            &&& d.content_type == req.content_type
            &&& d.batch_id == req.batch_id
            &&& d.episode_id == found.episode_id
            &&& d.ner_entity_names == found.candidate_names
            &&& req.group_id matches Some(g) ==> namespace_of(d) == g@
            &&& req.group_id is None ==> namespace_of(d) == "default"@
        }),
{
}

/// A failure is recorded with its own message, behind the name of the phase where that is
/// not the first, under its own category, at the time and for the episode it is about. The
/// preview is the start of the text, cut at 256 characters and nowhere else.
pub proof fn law_records_say_what_failed(
    e: Error,
    phase: FailedPhase,
    text: Seq<char>,
    episode_id: i64,
    now: Timestamp,
)
    ensures
        ({
            let r = error_record(e, phase, text, episode_id, now);
            &&& r.failed_at == now
            &&& r.episode_id == episode_id
            &&& r.kind == kind_of(e)
            &&& phase == FailedPhase::Phase1 ==> r.message == e.text()
            &&& phase == FailedPhase::VerifyStage ==> r.message == "verify_stage: "@ + e.text()
            &&& phase == FailedPhase::Deferred ==> r.message == "deferred: "@ + e.text()
            &&& text.len() <= 256 ==> r.text_preview == text
            &&& text.len() > 256 ==> r.text_preview == text.take(256)
        }),
{
    assert(Seq::<char>::empty() + e.text() =~= e.text());
}

/// The sink hears of every failure in the error's own words, and of nothing else. Where the
/// error names a provider, the event names it too; a failure of extraction or resolution is
/// a parse failure of the phase it happened in. Only the first phase can be retried.
pub proof fn law_events_say_what_failed(event: IngestionError, e: Error, phase: FailedPhase)
    requires
        is_event_of(event, e, phase),
    ensures
        event.entity_or_edge_ref is None,
        event.is_retryable <==> phase == FailedPhase::Phase1,
        match event.error_kind@ {
            ErrorKindView::ProviderError { provider_name, detail } => {
                &&& detail == e.text()
                &&& !(e is Extraction) && !(e is Resolution)
                &&& e is Llm ==> provider_name == "llm"@
                &&& e is Embedding ==> provider_name == "embedding"@
                &&& e is Database ==> provider_name == "database"@
                &&& !(e is Llm) && !(e is Embedding) && !(e is Database) ==> provider_name
                    == "unknown"@
            },
            ErrorKindView::ParseFailure { stage, detail } => {
                &&& detail == e.text()
                &&& e is Extraction || e is Resolution
                &&& stage == (match phase {
                    FailedPhase::Phase1 => "phase1"@,
                    FailedPhase::VerifyStage => "verify_stage"@,
                    FailedPhase::Deferred => "deferred"@,
                }) + (if e is Extraction {
                    "_extraction"@
                } else {
                    "_resolution"@
                })
            },
        },
{
}

/// A step that succeeded reports no failure, and one that failed reports it three times: as
/// a ghost episode of its step, as a record of this episode for the error channel, and as an
/// event for the sink. The sink hears that the episode is complete exactly when the facts
/// were extracted, and that it failed, with the error's text, exactly when they were not.
pub proof fn law_failures_are_reported(req: DeferredRequest, limited: bool, reply: DeferredReply)
    ensures
        ({
            let notices = deferred_transition(req, limited, reply).0;
            let failed = match reply {
                DeferredReply::Verified(r, _) => r is Err,
                DeferredReply::Facts(r, _) => r is Err,
                _ => false,
            };
            &&& (exists|i: int| 0 <= i < notices.len() && #[trigger] notices[i] is SendError)
                <==> failed
            &&& (exists|i: int| 0 <= i < notices.len() && #[trigger] notices[i] is SinkError)
                <==> failed
            &&& (exists|i: int| 0 <= i < notices.len() && #[trigger] notices[i] is GhostEpisode)
                <==> failed
            &&& notices.contains(DeferredNoticeView::StageChange(StatusView::Complete))
                <==> (reply matches DeferredReply::Facts(r, _) && r is Ok)
            &&& forall|i: int|
                0 <= i < notices.len() ==> (match #[trigger] notices[i] {
                    DeferredNoticeView::GhostEpisode(step) => step == (if reply is Facts {
                        GhostStep::IngestDeferred
                    } else {
                        GhostStep::VerifyStage
                    }),
                    DeferredNoticeView::SendError(record) => record.episode_id == req.episode_id,
                    DeferredNoticeView::SinkError { about, is_retryable, phase, .. } => about
                        is None && !is_retryable && phase == (if reply is Facts {
                        FailedPhase::Deferred
                    } else {
                        FailedPhase::VerifyStage
                    }),
                    DeferredNoticeView::StageChange(status) => reply matches DeferredReply::Facts(
                        r,
                        _,
                    ) && (r matches Ok(_) ==> status == StatusView::Complete) && (r matches Err(e)
                        ==> status == StatusView::Failed(e.text())),
                    DeferredNoticeView::Throttled(ns) => reply == DeferredReply::Token(false)
                        && ns == namespace_of(req),
                    DeferredNoticeView::RetakeToken => reply is Waited,
                })
        }),
{
    let notices = deferred_transition(req, limited, reply).0;
    match reply {
        DeferredReply::Verified(Err(e), _) => {
            assert(notices[0] is GhostEpisode);
            assert(notices[1] is SendError);
            assert(notices[2] is SinkError);
        },
        DeferredReply::Facts(Ok(_), _) => {
            assert(notices[0] == DeferredNoticeView::StageChange(StatusView::Complete));
        },
        DeferredReply::Facts(Err(e), _) => {
            assert(notices[0] is GhostEpisode);
            assert(notices[2] is SinkError);
            assert(notices[3] is SendError);
        },
        _ => {},
    }
}

/// With a rate limit every fact extraction is behind a token: it was to be had at once, or
/// it was waited for and taken again. Without one nothing is waited for.
pub proof fn law_facts_wait_for_a_token(req: DeferredRequest, limited: bool, reply: DeferredReply)
    ensures
        deferred_transition(req, limited, reply).1 == DeferredStep::ExtractFacts ==> {
            ||| reply is Verified && !limited
            ||| reply == DeferredReply::Token(true)
            ||| reply is Waited && deferred_transition(req, limited, reply).0
                == seq![DeferredNoticeView::RetakeToken]
        },
        reply is Verified && limited ==> deferred_transition(req, limited, reply).1
            == DeferredStep::TakeToken,
        reply == DeferredReply::Token(false) ==> deferred_transition(req, limited, reply).1
            == DeferredStep::Wait && deferred_transition(req, limited, reply).0
            == seq![DeferredNoticeView::Throttled(namespace_of(req))],
{
}

/// A failure of the second phase is told in full, wherever it is reported: the record carries
/// its time, its message behind the name of the step, its category and the start of the text;
/// the event carries its message and the provider or the stage that it is laid to.
pub proof fn law_second_phase_failure_is_told_in_full(
    req: DeferredRequest,
    limited: bool,
    reply: DeferredReply,
    e: Error,
    now: Timestamp,
    i: int,
)
    requires
        reply == DeferredReply::Verified(Err(e), now) || reply == DeferredReply::Facts(Err(e), now),
        0 <= i < deferred_transition(req, limited, reply).0.len(),
    ensures
        ({
            let name = if reply is Facts {
                "deferred"@
            } else {
                "verify_stage"@
            };
            match deferred_transition(req, limited, reply).0[i] {
                DeferredNoticeView::SendError(record) => {
                    &&& record.failed_at == now
                    &&& record.episode_id == req.episode_id
                    &&& record.kind == kind_of(e)
                    &&& record.message == name + ": "@ + e.text()
                    &&& req.text@.len() <= 256 ==> record.text_preview == req.text@
                    &&& req.text@.len() > 256 ==> record.text_preview == req.text@.take(256)
                },
                DeferredNoticeView::SinkError { kind, .. } => match kind {
                    ErrorKindView::ProviderError { provider_name, detail } => {
                        &&& detail == e.text()
                        &&& !(e is Extraction) && !(e is Resolution)
                        &&& provider_name == (if e is Llm {
                            "llm"@
                        } else if e is Embedding {
                            "embedding"@
                        } else if e is Database {
                            "database"@
                        } else {
                            "unknown"@
                        })
                    },
                    ErrorKindView::ParseFailure { stage, detail } => {
                        &&& detail == e.text()
                        &&& e is Extraction || e is Resolution
                        &&& e is Extraction ==> stage == name + "_extraction"@
                        &&& e is Resolution ==> stage == name + "_resolution"@
                    },
                },
                _ => true,
            }
        }),
{
    reveal_strlit("deferred");
    reveal_strlit("verify_stage");
    reveal_strlit(": ");
    reveal_strlit("deferred: ");
    reveal_strlit("verify_stage: ");
    assert("deferred: "@ =~= "deferred"@ + ": "@);
    assert("verify_stage: "@ =~= "verify_stage"@ + ": "@);
}

/// A notice says what it holds.
pub proof fn law_notice_is_read_as_it_is(n: DeferredNotice)
    ensures
        match n {
            DeferredNotice::GhostEpisode(step) => n@ == DeferredNoticeView::GhostEpisode(step),
            DeferredNotice::SendError(record) => n@ == DeferredNoticeView::SendError(record@),
            DeferredNotice::SinkError { event, phase } => n@ is SinkError && n@->about
                == event.entity_or_edge_ref && n@->kind == event.error_kind@ && n@->is_retryable
                == event.is_retryable && n@->phase == phase,
            DeferredNotice::StageChange(status) => n@ == DeferredNoticeView::StageChange(status@),
            DeferredNotice::Throttled(ns) => n@ == DeferredNoticeView::Throttled(ns@),
            DeferredNotice::RetakeToken => n@ is RetakeToken,
        },
{
}

/// What the sink is told of a failure is read as it is.
pub proof fn law_error_kind_is_read_as_it_is(k: IngestionErrorKind)
    ensures
        match k {
            IngestionErrorKind::ProviderError { provider_name, detail } => k@ == (
            ErrorKindView::ProviderError { provider_name: provider_name@, detail: detail@ }),
            IngestionErrorKind::ParseFailure { stage, detail } => k@ == (
            ErrorKindView::ParseFailure { stage: stage@, detail: detail@ }),
        },
{
}

}
