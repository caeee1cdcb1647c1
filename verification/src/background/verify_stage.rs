//! Entity-write stage of one episode.
//!
//! The stage moves an episode `Pending → Extracting → Verified`, extracts entity
//! candidates, has them verified when a verifier model is wired, and writes them.
//! On any failure the episode is marked `Failed` before the error is handed on.
//!
//! The stage itself talks to a database, an extractor and a model. [`VerifyStage`]
//! decides what happens next: each step answers a reply with the notices to issue,
//! in order, and the one request whose reply the next step needs.

use vstd::prelude::*;
use crate::background::{IngestStatus, StatusView};
use crate::error::Error;
use crate::ieee::Binary32;
use crate::json::{object_text, write_string_object};
use crate::text::owned;

verus! {

/// An entity as the extractor reported it. `confidence` is `None` when the
/// extractor gave none.
#[derive(Debug, Clone)]
pub struct ExtractedEntity {
    pub name: String,
    pub confidence: Option<Binary32>,
}

/// An entity candidate on its way to the verifier and to storage.
#[derive(Debug)]
pub struct EntityCandidate {
    pub name: String,
    pub entity_type_id_raw: i64,
    pub ner_confidence: Binary32,
    pub span: (usize, usize),
}

/// What was decided for one candidate.
#[derive(Debug, Clone, Copy, PartialEq, Eq, Structural)]
pub enum ResolvedDecision {
    /// Keep the candidate with its own type.
    Confirm { candidate_idx: usize },
    /// Keep the candidate with another type.
    Correct { candidate_idx: usize, new_type_id: i64 },
    /// Keep the candidate with the catch-all type.
    Demote { candidate_idx: usize },
}

/// The candidate that an extracted entity becomes: untyped, without a span, with a
/// confidence of zero unless the extractor gave one.
pub open spec fn candidate_of(e: ExtractedEntity) -> EntityCandidate {
    EntityCandidate {
        name: e.name,
        entity_type_id_raw: 0,
        ner_confidence: match e.confidence {
            Some(c) => c,
            None => Binary32::zero_value(),
        },
        span: (0, 0),
    }
}

/// The candidates of an extraction, in the order of its entities.
pub open spec fn candidates_of(entities: Seq<ExtractedEntity>) -> Seq<EntityCandidate> {
    entities.map_values(|e: ExtractedEntity| candidate_of(e))
}

/// Turns an extraction into candidates.
pub fn extraction_result_to_candidates(entities: &Vec<ExtractedEntity>) -> (r: Vec<EntityCandidate>)
    ensures
        r@ == candidates_of(entities@),
        r.len() == entities.len(),
        forall|i: int|
            0 <= i < r.len() ==> {
                &&& (#[trigger] r@[i]).name@ == entities@[i].name@
                &&& entities@[i].confidence matches Some(c) ==> r@[i].ner_confidence == c
                &&& entities@[i].confidence is None ==> r@[i].ner_confidence.bits == 0
                &&& r@[i].entity_type_id_raw == 0
                &&& r@[i].span == (0usize, 0usize)
            },
{
    let mut out: Vec<EntityCandidate> = Vec::new();
    let mut i: usize = 0;
    while i < entities.len()
        invariant
            i <= entities.len(),
            out@ == candidates_of(entities@).take(i as int),
        decreases entities.len() - i,
    {
        let e = &entities[i];
        let confidence = match e.confidence {
            Some(c) => c,
            None => Binary32::zero(),
        };
        out.push(
            EntityCandidate {
                name: e.name.clone(),
                entity_type_id_raw: 0,
                ner_confidence: confidence,
                span: (0, 0),
            },
        );
        i = i + 1;
    }
    out
}

impl ResolvedDecision {
    /// The candidate that the decision is about.
    pub open spec fn subject(self) -> usize {
        match self {
            ResolvedDecision::Confirm { candidate_idx } => candidate_idx,
            ResolvedDecision::Correct { candidate_idx, .. } => candidate_idx,
            ResolvedDecision::Demote { candidate_idx } => candidate_idx,
        }
    }

    /// The type under which the decision stores its candidate.
    pub open spec fn type_id(self, candidates: Seq<EntityCandidate>) -> i64 {
        match self {
            ResolvedDecision::Confirm { candidate_idx } =>
                candidates[candidate_idx as int].entity_type_id_raw,
            ResolvedDecision::Correct { new_type_id, .. } => new_type_id,
            ResolvedDecision::Demote { .. } => 0,
        }
    }

    /// The candidate that the decision is about.
    pub fn candidate_idx(&self) -> (r: usize)
        ensures
            r == self.subject(),
            *self matches ResolvedDecision::Confirm { candidate_idx } ==> r == candidate_idx,
            *self matches ResolvedDecision::Correct { candidate_idx, .. } ==> r == candidate_idx,
            *self matches ResolvedDecision::Demote { candidate_idx } ==> r == candidate_idx,
    {
        match self {
            ResolvedDecision::Confirm { candidate_idx } => *candidate_idx,
            ResolvedDecision::Correct { candidate_idx, .. } => *candidate_idx,
            ResolvedDecision::Demote { candidate_idx } => *candidate_idx,
        }
    }
}

/// Every decision is about an existing candidate.
pub open spec fn decisions_in_range(decisions: Seq<ResolvedDecision>, candidates: nat) -> bool {
    forall|k: int| 0 <= k < decisions.len() ==> (#[trigger] decisions[k]).subject() < candidates
}

/// The decisions that keep every one of `n` candidates as it is.
pub open spec fn confirm_all(n: nat) -> Seq<ResolvedDecision> {
    Seq::new(n, |i: int| ResolvedDecision::Confirm { candidate_idx: i as usize })
}

/// Keeps every candidate with its own type, in order.
pub fn confirm_decisions(n: usize) -> (r: Vec<ResolvedDecision>)
    ensures
        r@ == confirm_all(n as nat),
        r.len() == n,
        forall|i: int|
            0 <= i < n ==> #[trigger] r@[i] == (ResolvedDecision::Confirm {
                candidate_idx: i as usize,
            }),
{
    let mut out: Vec<ResolvedDecision> = Vec::new();
    let mut i: usize = 0;
    while i < n
        invariant
            i <= n,
            out@ == confirm_all(n as nat).take(i as int),
        decreases n - i,
    {
        out.push(ResolvedDecision::Confirm { candidate_idx: i });
        i = i + 1;
    }
    out
}

/// One entity row to be stored.
#[derive(Debug, Clone)]
pub struct EntityWrite {
    pub entity_id: String,
    pub name: String,
    pub entity_type_id: i64,
    /// The properties column: a JSON object that holds the name.
    pub properties: String,
    pub ner_confidence: Binary32,
}

/// `w` is the row that `decision` stores for its candidate.
pub open spec fn is_row_of(
    w: EntityWrite,
    decision: ResolvedDecision,
    candidates: Seq<EntityCandidate>,
    entity_ids: Seq<String>,
) -> bool {
    let i = decision.subject() as int;
    &&& w.entity_id@ == entity_ids[i]@
    &&& w.name@ == candidates[i].name@
    &&& w.entity_type_id == decision.type_id(candidates)
    &&& w.properties@ == object_text("name"@, candidates[i].name@)
    &&& w.ner_confidence == candidates[i].ner_confidence
}

/// The rows that the decisions store, one for each decision and in their order.
/// `entity_ids[i]` is the normalised name of candidate `i`.
pub fn stage3_rows(
    candidates: &Vec<EntityCandidate>,
    entity_ids: &Vec<String>,
    decisions: &Vec<ResolvedDecision>,
) -> (r: Vec<EntityWrite>)
    requires
        entity_ids.len() == candidates.len(),
        decisions_in_range(decisions@, candidates@.len()),
    ensures
        r.len() == decisions.len(),
        forall|k: int|
            0 <= k < decisions.len() ==> is_row_of(
                #[trigger] r@[k],
                decisions@[k],
                candidates@,
                entity_ids@,
            ),
{
    let mut out: Vec<EntityWrite> = Vec::new();
    let mut k: usize = 0;
    while k < decisions.len()
        invariant
            k <= decisions.len(),
            out.len() == k,
            entity_ids.len() == candidates.len(),
            decisions_in_range(decisions@, candidates@.len()),
            forall|j: int|
                0 <= j < k ==> is_row_of(
                    #[trigger] out@[j],
                    decisions@[j],
                    candidates@,
                    entity_ids@,
                ),
        decreases decisions.len() - k,
    {
        let decision = decisions[k];
        let idx: usize = decision.candidate_idx();
        let type_id: i64 = match decision {
            ResolvedDecision::Confirm { candidate_idx } => candidates[candidate_idx].entity_type_id_raw,
            ResolvedDecision::Correct { new_type_id, .. } => new_type_id,
            ResolvedDecision::Demote { .. } => 0,
        };
        let candidate = &candidates[idx];
        let properties = write_string_object("name", candidate.name.as_str()).unwrap();
        out.push(
            EntityWrite {
                entity_id: entity_ids[idx].clone(),
                name: candidate.name.clone(),
                entity_type_id: type_id,
                properties,
                ner_confidence: candidate.ner_confidence,
            },
        );
        k = k + 1;
    }
    out
}

/// Value of an episode's status column.
#[derive(Debug, Clone, Copy, PartialEq, Eq, Structural)]
pub enum EpisodeStatus {
    Pending,
    Extracting,
    Verified,
    Failed,
}

impl EpisodeStatus {
    /// The text that the column holds.
    pub open spec fn text(self) -> &'static str {
        match self {
            EpisodeStatus::Pending => "Pending",
            EpisodeStatus::Extracting => "Extracting",
            EpisodeStatus::Verified => "Verified",
            EpisodeStatus::Failed => "Failed",
        }
    }

    /// The text that the column holds.
    pub fn label(&self) -> (r: &'static str)
        ensures
            r == self.text(),
            self is Pending ==> r@ == "Pending"@,
            self is Extracting ==> r@ == "Extracting"@,
            self is Verified ==> r@ == "Verified"@,
            self is Failed ==> r@ == "Failed"@,
    {
        match self {
            EpisodeStatus::Pending => "Pending",
            EpisodeStatus::Extracting => "Extracting",
            EpisodeStatus::Verified => "Verified",
            EpisodeStatus::Failed => "Failed",
        }
    }
}

/// Which extractor runs: the local recogniser with a verifier model behind it, or
/// a model that extracts directly.
#[derive(Debug, Clone, Copy, PartialEq, Eq, Structural)]
pub enum Arm {
    Gliner,
    LlmExtract,
}

impl Arm {
    /// The metric label of the arm.
    pub open spec fn text(self) -> &'static str {
        match self {
            Arm::Gliner => "gliner",
            Arm::LlmExtract => "llm_extract",
        }
    }

    /// The metric label of the arm.
    pub fn label(&self) -> (r: &'static str)
        ensures
            r == self.text(),
            self is Gliner ==> r@ == "gliner"@,
            self is LlmExtract ==> r@ == "llm_extract"@,
    {
        match self {
            Arm::Gliner => "gliner",
            Arm::LlmExtract => "llm_extract",
        }
    }
}

/// Terminal outcome of the stage.
#[derive(Debug, Clone, Copy, PartialEq, Eq, Structural)]
pub enum VerifyOutcome {
    Success,
    GlinerFail,
    VerifyFail,
    WriteFail,
    StatusTransitionFail,
}

impl VerifyOutcome {
    /// The metric label of the outcome.
    pub open spec fn text(self) -> &'static str {
        match self {
            VerifyOutcome::Success => "success",
            VerifyOutcome::GlinerFail => "gliner_fail",
            VerifyOutcome::VerifyFail => "verify_fail",
            VerifyOutcome::WriteFail => "write_fail",
            VerifyOutcome::StatusTransitionFail => "status_transition_fail",
        }
    }

    /// The metric label of the outcome.
    pub fn label(&self) -> (r: &'static str)
        ensures
            r == self.text(),
            self is Success ==> r@ == "success"@,
            self is GlinerFail ==> r@ == "gliner_fail"@,
            self is VerifyFail ==> r@ == "verify_fail"@,
            self is WriteFail ==> r@ == "write_fail"@,
            self is StatusTransitionFail ==> r@ == "status_transition_fail"@,
    {
        match self {
            VerifyOutcome::Success => "success",
            VerifyOutcome::GlinerFail => "gliner_fail",
            VerifyOutcome::VerifyFail => "verify_fail",
            VerifyOutcome::WriteFail => "write_fail",
            VerifyOutcome::StatusTransitionFail => "status_transition_fail",
        }
    }
}

/// Which call a failed stage change goes back to.
#[derive(Debug, Clone, Copy, PartialEq, Eq, Structural)]
pub enum FailureArm {
    StatusTransitionFail,
    ExtractFail,
    VerifyFail,
    WriteFail,
}

impl FailureArm {
    /// The metric label of the failure.
    pub open spec fn text(self) -> &'static str {
        match self {
            FailureArm::StatusTransitionFail => "status_transition_fail",
            FailureArm::ExtractFail => "extract_fail",
            FailureArm::VerifyFail => "verify_fail",
            FailureArm::WriteFail => "write_fail",
        }
    }

    /// The metric label of the failure.
    pub fn label(&self) -> (r: &'static str)
        ensures
            r == self.text(),
            self is StatusTransitionFail ==> r@ == "status_transition_fail"@,
            self is ExtractFail ==> r@ == "extract_fail"@,
            self is VerifyFail ==> r@ == "verify_fail"@,
            self is WriteFail ==> r@ == "write_fail"@,
    {
        match self {
            FailureArm::StatusTransitionFail => "status_transition_fail",
            FailureArm::ExtractFail => "extract_fail",
            FailureArm::VerifyFail => "verify_fail",
            FailureArm::WriteFail => "write_fail",
        }
    }
}

/// Something to be issued whose outcome the stage does not depend on.
#[derive(Debug)]
pub enum VerifyNotice {
    /// Count a terminal outcome.
    Outcome { arm: Arm, outcome: VerifyOutcome },
    /// Write `Failed` into the status column; a failure of this write is ignored.
    MarkFailed { from: EpisodeStatus },
    /// Tell the sink, and count the transition.
    StageChange { from: EpisodeStatus, to: IngestStatus, cause: Option<FailureArm> },
    /// Count the entities that were written.
    EntitiesExtracted { arm: Arm, count: usize },
}

/// What a [`VerifyNotice`] says.
pub enum NoticeView {
    Outcome { arm: Arm, outcome: VerifyOutcome },
    MarkFailed { from: EpisodeStatus },
    StageChange { from: EpisodeStatus, to: StatusView, cause: Option<FailureArm> },
    EntitiesExtracted { arm: Arm, count: usize },
}

impl View for VerifyNotice {
    type V = NoticeView;

    open spec fn view(&self) -> NoticeView {
        match *self {
            VerifyNotice::Outcome { arm, outcome } => NoticeView::Outcome { arm, outcome },
            VerifyNotice::MarkFailed { from } => NoticeView::MarkFailed { from },
            VerifyNotice::StageChange { from, to, cause } => NoticeView::StageChange {
                from,
                to: to@,
                cause,
            },
            VerifyNotice::EntitiesExtracted { arm, count } => NoticeView::EntitiesExtracted {
                arm,
                count,
            },
        }
    }
}

/// What the stage needs done next.
#[derive(Debug)]
pub enum VerifyRequest {
    /// Write the status column; the reply is [`VerifyReply::Status`].
    SetStatus { from: EpisodeStatus, to: EpisodeStatus },
    /// Run the extractor on the episode's text; the reply is [`VerifyReply::Extraction`].
    Extract,
    /// Have the candidates verified; the reply is [`VerifyReply::Verification`].
    VerifyBatch,
    /// Store the rows of these decisions; the reply is [`VerifyReply::Write`].
    WriteEntities(Vec<ResolvedDecision>),
    /// The stage is over.
    Finish(Result<usize, Error>),
}

/// What a [`VerifyRequest`] says.
pub enum RequestView {
    SetStatus { from: EpisodeStatus, to: EpisodeStatus },
    Extract,
    VerifyBatch,
    WriteEntities(Seq<ResolvedDecision>),
    Finish(Result<usize, Error>),
}

impl View for VerifyRequest {
    type V = RequestView;

    open spec fn view(&self) -> RequestView {
        match *self {
            VerifyRequest::SetStatus { from, to } => RequestView::SetStatus { from, to },
            VerifyRequest::Extract => RequestView::Extract,
            VerifyRequest::VerifyBatch => RequestView::VerifyBatch,
            VerifyRequest::WriteEntities(decisions) => RequestView::WriteEntities(decisions@),
            VerifyRequest::Finish(result) => RequestView::Finish(result),
        }
    }
}

/// How a request was answered.
#[derive(Debug)]
pub enum VerifyReply {
    Status(Result<(), Error>),
    Extraction(Result<Vec<ExtractedEntity>, Error>),
    Verification(Result<Vec<ResolvedDecision>, Error>),
    Write(Result<usize, Error>),
}

/// Where the stage stands: the request that it waits on.
#[derive(Debug, Clone, Copy, PartialEq, Eq, Structural)]
pub enum VerifyPoint {
    Entering,
    Extracting,
    Verifying,
    Writing,
    Leaving,
    Finished,
}

impl VerifyPoint {
    /// `reply` answers the request that was made at this point.
    pub open spec fn expects(self, reply: VerifyReply) -> bool {
        match self {
            VerifyPoint::Entering => reply is Status,
            VerifyPoint::Extracting => reply is Extraction,
            VerifyPoint::Verifying => reply is Verification,
            VerifyPoint::Writing => reply is Write,
            VerifyPoint::Leaving => reply is Status,
            VerifyPoint::Finished => false,
        }
    }
}

/// The entity-write stage of one episode.
#[derive(Debug)]
pub struct VerifyStage {
    pub arm: Arm,
    pub point: VerifyPoint,
    /// The candidates, once they were extracted.
    pub candidates: Vec<EntityCandidate>,
    /// Entities stored, once they were written.
    pub written: usize,
}

/// Abstract state of a [`VerifyStage`].
pub struct StageView {
    pub arm: Arm,
    pub point: VerifyPoint,
    pub candidates: Seq<EntityCandidate>,
    pub written: usize,
}

impl View for VerifyStage {
    type V = StageView;

    open spec fn view(&self) -> StageView {
        StageView {
            arm: self.arm,
            point: self.point,
            candidates: self.candidates@,
            written: self.written,
        }
    }
}

/// The notices of one step and the request that follows them.
#[derive(Debug)]
pub struct VerifyStep {
    pub notices: Vec<VerifyNotice>,
    pub request: VerifyRequest,
}

/// What a [`VerifyStep`] says.
#[verifier::ext_equal]
pub struct StepView {
    pub notices: Seq<NoticeView>,
    pub request: RequestView,
}

impl View for VerifyStep {
    type V = StepView;

    open spec fn view(&self) -> StepView {
        StepView {
            notices: self.notices@.map_values(|n: VerifyNotice| n@),
            request: self.request@,
        }
    }
}

/// A transition of the stage.
pub struct Transition {
    pub stage: StageView,
    pub step: StepView,
}

/// The transition of a failure: it is counted, the episode is marked `Failed`, the
/// sink is told, and only then the error is handed on.
pub open spec fn failure(
    s: StageView,
    e: Error,
    from: EpisodeStatus,
    outcome: VerifyOutcome,
    cause: FailureArm,
) -> Transition {
    Transition {
        stage: StageView { point: VerifyPoint::Finished, ..s },
        step: StepView {
            notices: seq![
                NoticeView::Outcome { arm: s.arm, outcome },
                NoticeView::MarkFailed { from },
                NoticeView::StageChange { from, to: StatusView::Failed(e.text()), cause: Some(cause) },
            ],
            request: RequestView::Finish(Err(e)),
        },
    }
}

/// The stage right after it was started, and its first request.
pub open spec fn initial(verifies: bool) -> StageView {
    StageView {
        arm: if verifies {
            Arm::Gliner
        } else {
            Arm::LlmExtract
        },
        point: VerifyPoint::Entering,
        candidates: seq![],
        written: 0,
    }
}

/// How the stage answers a reply.
pub open spec fn transition(s: StageView, reply: VerifyReply) -> Transition {
    match (s.point, reply) {
        (VerifyPoint::Entering, VerifyReply::Status(Err(e))) => failure(
            s,
            e,
            EpisodeStatus::Pending,
            VerifyOutcome::StatusTransitionFail,
            FailureArm::StatusTransitionFail,
        ),
        (VerifyPoint::Entering, VerifyReply::Status(Ok(_))) => Transition {
            stage: StageView { point: VerifyPoint::Extracting, ..s },
            step: StepView {
                notices: seq![
                    NoticeView::StageChange {
                        from: EpisodeStatus::Pending,
                        to: StatusView::Extracting,
                        cause: None,
                    },
                ],
                request: RequestView::Extract,
            },
        },
        (VerifyPoint::Extracting, VerifyReply::Extraction(Err(e))) => failure(
            s,
            e,
            EpisodeStatus::Extracting,
            VerifyOutcome::GlinerFail,
            FailureArm::ExtractFail,
        ),
        (VerifyPoint::Extracting, VerifyReply::Extraction(Ok(entities))) => {
            let candidates = candidates_of(entities@);
            if s.arm == Arm::Gliner {
                Transition {
                    stage: StageView { point: VerifyPoint::Verifying, candidates, ..s },
                    step: StepView { notices: seq![], request: RequestView::VerifyBatch },
                }
            } else {
                Transition {
                    stage: StageView { point: VerifyPoint::Writing, candidates, ..s },
                    step: StepView {
                        notices: seq![],
                        request: RequestView::WriteEntities(confirm_all(candidates.len())),
                    },
                }
            }
        },
        (VerifyPoint::Verifying, VerifyReply::Verification(Err(e))) => failure(
            s,
            e,
            EpisodeStatus::Extracting,
            VerifyOutcome::VerifyFail,
            FailureArm::VerifyFail,
        ),
        (VerifyPoint::Verifying, VerifyReply::Verification(Ok(decisions))) => Transition {
            stage: StageView { point: VerifyPoint::Writing, ..s },
            step: StepView {
                notices: seq![],
                request: RequestView::WriteEntities(decisions@),
            },
        },
        (VerifyPoint::Writing, VerifyReply::Write(Err(e))) => failure(
            s,
            e,
            EpisodeStatus::Extracting,
            VerifyOutcome::WriteFail,
            FailureArm::WriteFail,
        ),
        (VerifyPoint::Writing, VerifyReply::Write(Ok(n))) => Transition {
            stage: StageView { point: VerifyPoint::Leaving, written: n, ..s },
            step: StepView {
                notices: seq![NoticeView::EntitiesExtracted { arm: s.arm, count: n }],
                request: RequestView::SetStatus {
                    from: EpisodeStatus::Extracting,
                    to: EpisodeStatus::Verified,
                },
            },
        },
        (VerifyPoint::Leaving, VerifyReply::Status(result)) => Transition {
            stage: StageView { point: VerifyPoint::Finished, ..s },
            step: StepView {
                notices: seq![
                    match result {
                        Ok(_) => NoticeView::StageChange {
                            from: EpisodeStatus::Extracting,
                            to: StatusView::EntitiesReady,
                            cause: None,
                        },
                        Err(e) => NoticeView::StageChange {
                            from: EpisodeStatus::Extracting,
                            to: StatusView::Failed(e.text()),
                            cause: Some(FailureArm::StatusTransitionFail),
                        },
                    },
                    NoticeView::Outcome { arm: s.arm, outcome: VerifyOutcome::Success },
                ],
                request: RequestView::Finish(Ok(s.written)),
            },
        },
        _ => arbitrary(),
    }
}

impl VerifyStage {
    /// Starts the stage; `verifies` says whether a verifier model is wired. The
    /// first request marks the episode as `Extracting`.
    pub fn start(verifies: bool) -> (r: (VerifyStage, VerifyRequest))
        ensures
            r.0@ == initial(verifies),
            r.0.point == VerifyPoint::Entering,
            verifies <==> r.0.arm == Arm::Gliner,
            r.0.candidates.len() == 0,
            r.0.written == 0,
            r.1@ == (RequestView::SetStatus {
                from: EpisodeStatus::Pending,
                to: EpisodeStatus::Extracting,
            }),
    {
        let arm = if verifies {
            Arm::Gliner
        } else {
            Arm::LlmExtract
        };
        let stage = VerifyStage {
            arm,
            point: VerifyPoint::Entering,
            candidates: Vec::new(),
            written: 0,
        };
        let request = VerifyRequest::SetStatus {
            from: EpisodeStatus::Pending,
            to: EpisodeStatus::Extracting,
        };
        (stage, request)
    }

    /// Ends the stage with a failure.
    fn fail(
        &mut self,
        e: Error,
        from: EpisodeStatus,
        outcome: VerifyOutcome,
        cause: FailureArm,
    ) -> (r: VerifyStep)
        ensures
            final(self)@ == failure(old(self)@, e, from, outcome, cause).stage,
            r@ == failure(old(self)@, e, from, outcome, cause).step,
    {
        self.point = VerifyPoint::Finished;
        let notices = vec![
            VerifyNotice::Outcome { arm: self.arm, outcome },
            VerifyNotice::MarkFailed { from },
            VerifyNotice::StageChange {
                from,
                to: IngestStatus::Failed(e.message()),
                cause: Some(cause),
            },
        ];
        let step = VerifyStep { notices, request: VerifyRequest::Finish(Err(e)) };
        assert(step@ =~= failure(old(self)@, e, from, outcome, cause).step);
        step
    }

    /// Takes the reply to the last request and says what follows.
    pub fn step(&mut self, reply: VerifyReply) -> (r: VerifyStep)
        requires
            old(self).point.expects(reply),
        ensures
            final(self)@ == transition(old(self)@, reply).stage,
            r@ == transition(old(self)@, reply).step,
    {
        let ghost before = self@;
        match reply {
            VerifyReply::Status(result) => {
                if let VerifyPoint::Entering = self.point {
                    match result {
                        Ok(_) => {
                            self.point = VerifyPoint::Extracting;
                            let step = VerifyStep {
                                notices: vec![
                                    VerifyNotice::StageChange {
                                        from: EpisodeStatus::Pending,
                                        to: IngestStatus::Extracting,
                                        cause: None,
                                    },
                                ],
                                request: VerifyRequest::Extract,
                            };
                            assert(step@ =~= transition(before, reply).step);
                            step
                        },
                        Err(e) => self.fail(
                            e,
                            EpisodeStatus::Pending,
                            VerifyOutcome::StatusTransitionFail,
                            FailureArm::StatusTransitionFail,
                        ),
                    }
                } else {
                    let change = match result {
                        Ok(_) => VerifyNotice::StageChange {
                            from: EpisodeStatus::Extracting,
                            to: IngestStatus::EntitiesReady,
                            cause: None,
                        },
                        // The entities are stored; only the status column is behind.
                        Err(e) => VerifyNotice::StageChange {
                            from: EpisodeStatus::Extracting,
                            to: IngestStatus::Failed(e.message()),
                            cause: Some(FailureArm::StatusTransitionFail),
                        },
                    };
                    self.point = VerifyPoint::Finished;
                    let step = VerifyStep {
                        notices: vec![
                            change,
                            VerifyNotice::Outcome {
                                arm: self.arm,
                                outcome: VerifyOutcome::Success,
                            },
                        ],
                        request: VerifyRequest::Finish(Ok(self.written)),
                    };
                    assert(step@ =~= transition(before, reply).step);
                    step
                }
            },
            VerifyReply::Extraction(result) => match result {
                Ok(entities) => {
                    self.candidates = extraction_result_to_candidates(&entities);
                    let request = match self.arm {
                        Arm::Gliner => {
                            self.point = VerifyPoint::Verifying;
                            VerifyRequest::VerifyBatch
                        },
                        Arm::LlmExtract => {
                            self.point = VerifyPoint::Writing;
                            VerifyRequest::WriteEntities(confirm_decisions(self.candidates.len()))
                        },
                    };
                    let step = VerifyStep { notices: vec![], request };
                    assert(step@ =~= transition(before, reply).step);
                    step
                },
                Err(e) => self.fail(
                    e,
                    EpisodeStatus::Extracting,
                    VerifyOutcome::GlinerFail,
                    FailureArm::ExtractFail,
                ),
            },
            VerifyReply::Verification(result) => match result {
                Ok(decisions) => {
                    self.point = VerifyPoint::Writing;
                    let step = VerifyStep {
                        notices: vec![],
                        request: VerifyRequest::WriteEntities(decisions),
                    };
                    assert(step@ =~= transition(before, reply).step);
                    step
                },
                Err(e) => self.fail(
                    e,
                    EpisodeStatus::Extracting,
                    VerifyOutcome::VerifyFail,
                    FailureArm::VerifyFail,
                ),
            },
            VerifyReply::Write(result) => match result {
                Ok(n) => {
                    self.point = VerifyPoint::Leaving;
                    self.written = n;
                    let step = VerifyStep {
                        notices: vec![VerifyNotice::EntitiesExtracted { arm: self.arm, count: n }],
                        request: VerifyRequest::SetStatus {
                            from: EpisodeStatus::Extracting,
                            to: EpisodeStatus::Verified,
                        },
                    };
                    assert(step@ =~= transition(before, reply).step);
                    step
                },
                Err(e) => self.fail(
                    e,
                    EpisodeStatus::Extracting,
                    VerifyOutcome::WriteFail,
                    FailureArm::WriteFail,
                ),
            },
        }
    }
}

/// Each reply answers the request that was made before it.
pub open spec fn answered(s: StageView, replies: Seq<VerifyReply>) -> bool
    decreases replies.len(),
{
    replies.len() == 0 || (s.point.expects(replies[0]) && answered(
        transition(s, replies[0]).stage,
        replies.drop_first(),
    ))
}

/// The stage after a run of replies.
pub open spec fn after(s: StageView, replies: Seq<VerifyReply>) -> StageView
    decreases replies.len(),
{
    if replies.len() == 0 {
        s
    } else {
        after(transition(s, replies[0]).stage, replies.drop_first())
    }
}

/// Every notice of a run, in order.
pub open spec fn notices_of(s: StageView, replies: Seq<VerifyReply>) -> Seq<NoticeView>
    decreases replies.len(),
{
    if replies.len() == 0 {
        seq![]
    } else {
        transition(s, replies[0]).step.notices + notices_of(
            transition(s, replies[0]).stage,
            replies.drop_first(),
        )
    }
}

/// What the stage returned at the end of a run; `None` while it goes on.
pub open spec fn ending(s: StageView, replies: Seq<VerifyReply>) -> Option<Result<usize, Error>>
    decreases replies.len(),
{
    if replies.len() == 0 {
        None
    } else {
        match transition(s, replies[0]).step.request {
            RequestView::Finish(result) => Some(result),
            _ => ending(transition(s, replies[0]).stage, replies.drop_first()),
        }
    }
}

/// Replies that a stage at this point can still take.
pub open spec fn replies_left(s: StageView) -> nat {
    match s.point {
        VerifyPoint::Entering => if s.arm == Arm::Gliner {
            5
        } else {
            4
        },
        VerifyPoint::Extracting => if s.arm == Arm::Gliner {
            4
        } else {
            3
        },
        VerifyPoint::Verifying => 3,
        VerifyPoint::Writing => 2,
        VerifyPoint::Leaving => 1,
        VerifyPoint::Finished => 0,
    }
}

/// How often a run of notices counts a terminal outcome.
pub open spec fn outcomes(notices: Seq<NoticeView>) -> nat
    decreases notices.len(),
{
    if notices.len() == 0 {
        0
    } else {
        outcomes(notices.drop_last()) + (if notices.last() is Outcome {
            1nat
        } else {
            0nat
        })
    }
}

/// The sink was told that the entities are ready.
pub open spec fn tells_ready(notices: Seq<NoticeView>) -> bool {
    exists|i: int|
        0 <= i < notices.len() && (#[trigger] notices[i]) == (NoticeView::StageChange {
            from: EpisodeStatus::Extracting,
            to: StatusView::EntitiesReady,
            cause: None,
        })
}

/// The reply reports a failure.
pub open spec fn failed_reply(reply: VerifyReply) -> bool {
    match reply {
        VerifyReply::Status(r) => r is Err,
        VerifyReply::Extraction(r) => r is Err,
        VerifyReply::Verification(r) => r is Err,
        VerifyReply::Write(r) => r is Err,
    }
}

proof fn outcomes_split(a: Seq<NoticeView>, b: Seq<NoticeView>)
    ensures
        outcomes(a + b) == outcomes(a) + outcomes(b),
    decreases b.len(),
{
    if b.len() == 0 {
        assert(a + b =~= a);
    } else {
        assert((a + b).drop_last() =~= a + b.drop_last());
        outcomes_split(a, b.drop_last());
    }
}

proof fn one_step_outcomes(s: StageView, reply: VerifyReply)
    requires
        s.point.expects(reply),
    ensures
        transition(s, reply).stage.point == VerifyPoint::Finished ==> outcomes(
            transition(s, reply).step.notices,
        ) == 1,
        transition(s, reply).stage.point != VerifyPoint::Finished ==> outcomes(
            transition(s, reply).step.notices,
        ) == 0,
{
    reveal_with_fuel(outcomes, 4);
    let notices = transition(s, reply).step.notices;
    if notices.len() == 1 {
        assert(notices.drop_last() =~= seq![]);
    } else if notices.len() == 2 {
        assert(notices.drop_last().drop_last() =~= seq![]);
    } else if notices.len() == 3 {
        assert(notices.drop_last().drop_last().drop_last() =~= seq![]);
    }
}

proof fn finished_takes_no_reply(s: StageView, replies: Seq<VerifyReply>)
    requires
        answered(s, replies),
        s.point == VerifyPoint::Finished,
    ensures
        replies.len() == 0,
{
}

/// A run is over after at most five replies with a verifier model and four without
/// one, and it has returned exactly when it is over.
pub proof fn law_run_ends(s: StageView, replies: Seq<VerifyReply>)
    requires
        answered(s, replies),
        s.point != VerifyPoint::Finished,
    ensures
        replies.len() <= replies_left(s),
        replies.len() == replies_left(s) ==> ending(s, replies) is Some,
        ending(s, replies) is Some <==> after(s, replies).point == VerifyPoint::Finished,
    decreases replies.len(),
{
    if replies.len() > 0 {
        let t = transition(s, replies[0]);
        if t.stage.point == VerifyPoint::Finished {
            finished_takes_no_reply(t.stage, replies.drop_first());
        } else {
            law_run_ends(t.stage, replies.drop_first());
        }
    }
}

/// An error is never handed on before the episode was marked `Failed` and the sink
/// was told so with the error's own text: these are the last notices of the run.
pub proof fn law_failed_before_error(s: StageView, replies: Seq<VerifyReply>, e: Error)
    requires
        answered(s, replies),
        ending(s, replies) == Some(Err::<usize, Error>(e)),
    ensures
        ({
            let notices = notices_of(s, replies);
            let n = notices.len() as int;
            &&& n >= 3
            &&& notices[n - 3] is Outcome
            &&& notices[n - 3]->Outcome_outcome != VerifyOutcome::Success
            &&& notices[n - 2] is MarkFailed
            &&& notices[n - 1] is StageChange
            &&& notices[n - 1]->StageChange_from == notices[n - 2]->MarkFailed_from
            &&& notices[n - 1]->to == StatusView::Failed(e.text())
        }),
    decreases replies.len(),
{
    let t = transition(s, replies[0]);
    let rest = replies.drop_first();
    if t.stage.point == VerifyPoint::Finished {
        finished_takes_no_reply(t.stage, rest);
        assert(notices_of(s, replies) =~= t.step.notices);
    } else {
        law_failed_before_error(t.stage, rest, e);
    }
}

/// Success is returned only with the number of entities that the write reported,
/// and only when no reply before the last one was a failure. A failure of the last
/// status write alone does not turn success into an error.
pub proof fn law_success_reports_the_write(s: StageView, replies: Seq<VerifyReply>, n: usize)
    requires
        answered(s, replies),
        ending(s, replies) == Some(Ok::<usize, Error>(n)),
    ensures
        s.point == VerifyPoint::Leaving || exists|i: int|
            0 <= i < replies.len() && #[trigger] replies[i] == VerifyReply::Write(Ok(n)),
        s.point == VerifyPoint::Leaving ==> n == s.written,
        forall|i: int| 0 <= i < replies.len() - 1 ==> !failed_reply(#[trigger] replies[i]),
    decreases replies.len(),
{
    let t = transition(s, replies[0]);
    let rest = replies.drop_first();
    if t.stage.point == VerifyPoint::Finished {
        finished_takes_no_reply(t.stage, rest);
    } else {
        law_success_reports_the_write(t.stage, rest, n);
        assert forall|i: int| 0 <= i < replies.len() - 1 implies !failed_reply(
            #[trigger] replies[i],
        ) by {
            if i > 0 {
                assert(replies[i] == rest[i - 1]);
            }
        }
        if s.point == VerifyPoint::Writing {
            assert(replies[0] == VerifyReply::Write(Ok(n)));
        } else if exists|i: int| 0 <= i < rest.len() && #[trigger] rest[i] == VerifyReply::Write(
            Ok(n),
        ) {
            let i = choose|i: int|
                0 <= i < rest.len() && #[trigger] rest[i] == VerifyReply::Write(Ok(n));
            assert(replies[i + 1] == VerifyReply::Write(Ok(n)));
        }
    }
}

/// A run counts exactly one terminal outcome when it is over, and none before.
pub proof fn law_one_outcome(s: StageView, replies: Seq<VerifyReply>)
    requires
        answered(s, replies),
        s.point != VerifyPoint::Finished,
    ensures
        outcomes(notices_of(s, replies)) == (if ending(s, replies) is Some {
            1nat
        } else {
            0nat
        }),
    decreases replies.len(),
{
    if replies.len() > 0 {
        let t = transition(s, replies[0]);
        let rest = replies.drop_first();
        one_step_outcomes(s, replies[0]);
        outcomes_split(t.step.notices, notices_of(t.stage, rest));
        if t.stage.point == VerifyPoint::Finished {
            finished_takes_no_reply(t.stage, rest);
        } else {
            law_one_outcome(t.stage, rest);
        }
    }
}

proof fn ready_in_one_step(s: StageView, reply: VerifyReply)
    requires
        s.point.expects(reply),
    ensures
        tells_ready(transition(s, reply).step.notices) <==> s.point == VerifyPoint::Leaving
            && !failed_reply(reply),
{
    let notices = transition(s, reply).step.notices;
    if s.point == VerifyPoint::Leaving && !failed_reply(reply) {
        assert(notices[0] is StageChange);
    }
}

proof fn ready_splits(a: Seq<NoticeView>, b: Seq<NoticeView>)
    ensures
        tells_ready(a + b) <==> tells_ready(a) || tells_ready(b),
{
    let ready = NoticeView::StageChange {
        from: EpisodeStatus::Extracting,
        to: StatusView::EntitiesReady,
        cause: None,
    };
    if tells_ready(a) {
        let i = choose|i: int| 0 <= i < a.len() && (#[trigger] a[i]) == ready;
        assert((a + b)[i] == ready);
    }
    if tells_ready(b) {
        let i = choose|i: int| 0 <= i < b.len() && (#[trigger] b[i]) == ready;
        assert((a + b)[a.len() + i] == ready);
    }
    if tells_ready(a + b) {
        let i = choose|i: int| 0 <= i < (a + b).len() && (#[trigger] (a + b)[i]) == ready;
        if i < a.len() {
            assert(a[i] == ready);
        } else {
            assert(b[i - a.len()] == ready);
        }
    }
}

/// The sink hears that the entities are ready exactly when the run returned success
/// and the status column was brought to `Verified`.
pub proof fn law_ready_iff_verified(s: StageView, replies: Seq<VerifyReply>)
    requires
        answered(s, replies),
        replies.len() > 0,
    ensures
        tells_ready(notices_of(s, replies)) <==> ending(s, replies) is Some && ending(
            s,
            replies,
        )->0 is Ok && replies.last() is Status && !failed_reply(replies.last()),
    decreases replies.len(),
{
    let t = transition(s, replies[0]);
    let rest = replies.drop_first();
    ready_in_one_step(s, replies[0]);
    ready_splits(t.step.notices, notices_of(t.stage, rest));
    if t.stage.point == VerifyPoint::Finished {
        finished_takes_no_reply(t.stage, rest);
    }
    if rest.len() == 0 {
        assert(notices_of(t.stage, rest).len() == 0);
        assert(!tells_ready(notices_of(t.stage, rest)));
        assert(replies.last() == replies[0]);
        assert(ending(t.stage, rest) is None);
    } else {
        law_ready_iff_verified(t.stage, rest);
        assert(rest.last() == replies.last());
    }
}

/// An extraction becomes as many candidates as it has entities, in the same order. Each
/// has the name of its entity and the very confidence that the extractor gave, however
/// low; only an entity without one counts as zero.
pub proof fn law_candidates_keep_what_was_extracted(entities: Seq<ExtractedEntity>)
    ensures
        candidates_of(entities).len() == entities.len(),
        forall|i: int|
            0 <= i < entities.len() ==> (#[trigger] candidates_of(entities)[i]).name
                == entities[i].name && candidates_of(entities)[i].entity_type_id_raw == 0
                && candidates_of(entities)[i].span == (0usize, 0usize),
        forall|i: int|
            0 <= i < entities.len() ==> ((#[trigger] entities[i]).confidence matches Some(c)
                ==> candidates_of(entities)[i].ner_confidence == c),
        forall|i: int|
            0 <= i < entities.len() && entities[i].confidence is None ==> (
            #[trigger] candidates_of(entities)[i]).ner_confidence.bits == 0,
        forall|i: int|
            0 <= i < entities.len() && (#[trigger] candidates_of(entities)[i]).ner_confidence.bits
                != 0 ==> entities[i].confidence == Some(candidates_of(entities)[i].ner_confidence),
{
}

/// The row of a decision is about the candidate that the decision names: its id, its name, its
/// confidence, and its properties, whatever the decision. The type is the candidate's own
/// when it is confirmed, the new one when it is corrected, and none when it is demoted.
pub proof fn law_row_is_of_its_candidate(
    w: EntityWrite,
    decision: ResolvedDecision,
    candidates: Seq<EntityCandidate>,
    entity_ids: Seq<String>,
    i: usize,
)
    requires
        is_row_of(w, decision, candidates, entity_ids),
        match decision {
            ResolvedDecision::Confirm { candidate_idx } => i == candidate_idx,
            ResolvedDecision::Correct { candidate_idx, .. } => i == candidate_idx,
            ResolvedDecision::Demote { candidate_idx } => i == candidate_idx,
        },
    ensures
        w.entity_id@ == entity_ids[i as int]@,
        w.name@ == candidates[i as int].name@,
        w.properties@ == object_text("name"@, candidates[i as int].name@),
        w.ner_confidence == candidates[i as int].ner_confidence,
        decision is Confirm ==> w.entity_type_id == candidates[i as int].entity_type_id_raw,
        decision matches ResolvedDecision::Correct { new_type_id, .. } ==> w.entity_type_id
            == new_type_id,
        decision is Demote ==> w.entity_type_id == 0,
{
}

/// A failure, point by point: which outcome is counted, which status the episode is taken out
/// of, which call the sink is told of, and that the very error is handed on.
pub proof fn law_failure_names_its_call(s: StageView, reply: VerifyReply, e: Error)
    requires
        s.point.expects(reply),
        s.point != VerifyPoint::Leaving,
        reply == VerifyReply::Status(Err(e)) || reply == VerifyReply::Extraction(Err(e)) || reply
            == VerifyReply::Verification(Err(e)) || reply == VerifyReply::Write(Err(e)),
    ensures
        ({
            let step = transition(s, reply).step;
            let from = if s.point == VerifyPoint::Entering {
                EpisodeStatus::Pending
            } else {
                EpisodeStatus::Extracting
            };
            &&& transition(s, reply).stage.point == VerifyPoint::Finished
            &&& step.request == RequestView::Finish(Err(e))
            &&& step.notices.len() == 3
            &&& step.notices[0] is Outcome && step.notices[0]->Outcome_arm == s.arm
            &&& step.notices[1] == (NoticeView::MarkFailed { from })
            &&& step.notices[2] is StageChange && step.notices[2]->StageChange_from == from
            &&& step.notices[2]->to == StatusView::Failed(e.text())
            &&& match s.point {
                VerifyPoint::Entering => step.notices[0]->outcome
                    == VerifyOutcome::StatusTransitionFail && step.notices[2]->cause == Some(
                    FailureArm::StatusTransitionFail,
                ),
                VerifyPoint::Extracting => step.notices[0]->outcome == VerifyOutcome::GlinerFail
                    && step.notices[2]->cause == Some(FailureArm::ExtractFail),
                VerifyPoint::Verifying => step.notices[0]->outcome == VerifyOutcome::VerifyFail
                    && step.notices[2]->cause == Some(FailureArm::VerifyFail),
                _ => step.notices[0]->outcome == VerifyOutcome::WriteFail && step.notices[2]->cause
                    == Some(FailureArm::WriteFail),
            }
        }),
{
}

/// The way of an episode that meets no failure. What was extracted is verified exactly when a
/// verifier model is wired, and its decisions are written as they came; without a model every
/// candidate is written as it is. The number that is counted and returned is the one that the
/// write reported.
pub proof fn law_stage_goes_its_way(s: StageView, reply: VerifyReply)
    requires
        s.point.expects(reply),
        !failed_reply(reply),
    ensures
        ({
            let t = transition(s, reply);
            &&& t.stage.arm == s.arm
            &&& !(reply is Extraction) ==> t.stage.candidates == s.candidates
            &&& !(reply is Write) ==> t.stage.written == s.written
            &&& match reply {
                VerifyReply::Status(_) => if s.point == VerifyPoint::Entering {
                    t.step.request is Extract && t.step.notices.len() == 1 && t.step.notices[0] == (
                    NoticeView::StageChange {
                        from: EpisodeStatus::Pending,
                        to: StatusView::Extracting,
                        cause: None,
                    })
                } else {
                    t.step.request == RequestView::Finish(Ok(s.written)) && t.step.notices.len()
                        == 2 && t.step.notices[0] == (NoticeView::StageChange {
                        from: EpisodeStatus::Extracting,
                        to: StatusView::EntitiesReady,
                        cause: None,
                    }) && t.step.notices[1] == (NoticeView::Outcome {
                        arm: s.arm,
                        outcome: VerifyOutcome::Success,
                    })
                },
                VerifyReply::Extraction(Ok(entities)) => t.step.notices.len() == 0
                    && t.stage.candidates.len() == entities.len() && (s.arm == Arm::Gliner
                    ==> t.step.request is VerifyBatch) && (s.arm == Arm::LlmExtract
                    ==> t.step.request is WriteEntities && t.step.request->WriteEntities_0.len()
                    == entities.len() && forall|i: int|
                    0 <= i < entities.len() ==> #[trigger] t.step.request->WriteEntities_0[i] == (
                    ResolvedDecision::Confirm { candidate_idx: i as usize })),
                VerifyReply::Verification(Ok(decisions)) => t.step.notices.len() == 0
                    && t.step.request == RequestView::WriteEntities(decisions@),
                VerifyReply::Write(Ok(n)) => t.stage.written == n && t.step.notices.len() == 1
                    && t.step.notices[0] == (NoticeView::EntitiesExtracted {
                    arm: s.arm,
                    count: n,
                }) && t.step.request == (RequestView::SetStatus {
                    from: EpisodeStatus::Extracting,
                    to: EpisodeStatus::Verified,
                }),
                _ => true,
            }
        }),
{
}

/// The candidates that a stage holds are those of the extraction that it was given, name by
/// name and confidence by confidence.
pub proof fn law_stage_holds_what_was_extracted(
    s: StageView,
    entities: Vec<ExtractedEntity>,
    i: int,
)
    requires
        s.point == VerifyPoint::Extracting,
        0 <= i < entities.len(),
    ensures
        ({
            let held = transition(s, VerifyReply::Extraction(Ok(entities))).stage.candidates;
            &&& held.len() == entities.len()
            &&& held[i].name@ == entities@[i].name@
            &&& entities@[i].confidence matches Some(c) ==> held[i].ner_confidence == c
            &&& entities@[i].confidence is None ==> held[i].ner_confidence.bits == 0
        }),
{
}

/// A notice says what it holds.
pub proof fn law_notice_is_read_as_it_is(n: VerifyNotice)
    ensures
        match n {
            VerifyNotice::Outcome { arm, outcome } => n@ == (NoticeView::Outcome { arm, outcome }),
            VerifyNotice::MarkFailed { from } => n@ == (NoticeView::MarkFailed { from }),
            VerifyNotice::StageChange { from, to, cause } => n@ == (NoticeView::StageChange {
                from,
                to: to@,
                cause,
            }),
            VerifyNotice::EntitiesExtracted { arm, count } => n@ == (
            NoticeView::EntitiesExtracted { arm, count }),
        },
{
}

/// A request says what it asks for.
pub proof fn law_request_is_read_as_it_is(r: VerifyRequest)
    ensures
        match r {
            VerifyRequest::SetStatus { from, to } => r@ == (RequestView::SetStatus { from, to }),
            VerifyRequest::Extract => r@ is Extract,
            VerifyRequest::VerifyBatch => r@ is VerifyBatch,
            VerifyRequest::WriteEntities(decisions) => r@ == RequestView::WriteEntities(
                decisions@,
            ),
            VerifyRequest::Finish(result) => r@ == RequestView::Finish(result),
        },
{
}

}
