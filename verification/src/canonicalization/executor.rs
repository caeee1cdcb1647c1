//! The merge executor.
//!
//! A merge is one transaction: the captured state is recorded, facts and edges are
//! re-pointed from the loser to the keeper, collapsed facts are expired, counts and
//! confidence move over, the loser is deleted and the audit row, if there is one, is
//! written. The first failure rolls everything back. Only after the commit is the
//! keeper's vector refreshed, and a failure of that does not undo the merge.

use vstd::prelude::*;
use crate::confidence::{merged, merged_confidence};
use crate::error::Error;
use crate::ieee::{Binary32, Binary64};

verus! {

/// A write of the merge. Every one but the full-text delete is scoped to the namespace.
#[derive(Debug, Clone, Copy, PartialEq, Eq, Structural)]
pub enum MergeStatement {
    /// Move the subject of the loser's facts to the keeper and mark them inert.
    RepointSubjects,
    /// Move the object of the loser's facts to the keeper and mark them inert.
    RepointObjects,
    /// Move the loser's edges to the keeper, except where the keeper has one already.
    RepointEdges,
    /// Delete the edges that are still the loser's.
    DropLoserEdges,
    /// Expire the collapsed fact with the given index, if it is still live.
    ExpireFact(usize),
    /// Add the loser's access count to the keeper's.
    AddAccess,
    /// Record the merged confidence with the keeper.
    SetConfidence(Binary32),
    /// Delete the loser's full-text row.
    DeleteFullText,
    /// Delete the loser.
    DeleteEntity,
    /// Write the audit row.
    InsertAudit,
}

/// The text of a statement with its parameters in the given order.
pub struct StatementText {
    pub sql: &'static str,
    pub params: Seq<StatementParam>,
}

/// A parameter of a statement.
#[derive(Debug, Clone, Copy, PartialEq, Eq, Structural)]
pub enum StatementParam {
    Keeper,
    Loser,
    Group,
    /// The time of the merge.
    Now,
    /// The id of the collapsed fact with the given index.
    DoomedFact(usize),
    /// The loser's access count.
    AccessCount,
    /// A confidence, as its column holds it.
    Confidence(Option<Binary64>),
    /// The eleven columns of the audit row.
    AuditColumns,
}

/// What the confidence column holds of a confidence: its value in binary64, and nothing
/// of a NaN, which the store keeps as a null.
pub open spec fn confidence_column(c: Binary32) -> Option<Binary64> {
    if c.nan() {
        None
    } else {
        Some(c.widened())
    }
}

/// The value of the confidence column.
fn store_confidence(c: Binary32) -> (r: Option<Binary64>)
    ensures
        r == confidence_column(c),
{
    if c.is_nan() {
        None
    } else {
        Some(c.widen())
    }
}

impl MergeStatement {
    /// The statement as it is sent to the store.
    pub open spec fn text(self) -> StatementText {
        match self {
            MergeStatement::RepointSubjects => StatementText {
                sql: "UPDATE facts SET subject_id = ?1, corroboration_inert = 1 WHERE subject_id = ?2 AND subject_group_id = ?3",
                params: seq![StatementParam::Keeper, StatementParam::Loser, StatementParam::Group],
            },
            MergeStatement::RepointObjects => StatementText {
                sql: "UPDATE facts SET object_id = ?1, corroboration_inert = 1 WHERE object_id = ?2 AND object_group_id = ?3",
                params: seq![StatementParam::Keeper, StatementParam::Loser, StatementParam::Group],
            },
            MergeStatement::RepointEdges => StatementText {
                sql: "UPDATE OR IGNORE episodic_edges SET entity_id = ?1 WHERE entity_id = ?2 AND entity_group_id = ?3",
                params: seq![StatementParam::Keeper, StatementParam::Loser, StatementParam::Group],
            },
            MergeStatement::DropLoserEdges => StatementText {
                sql: "DELETE FROM episodic_edges WHERE entity_id = ?1 AND entity_group_id = ?2",
                params: seq![StatementParam::Loser, StatementParam::Group],
            },
            MergeStatement::ExpireFact(i) => StatementText {
                sql: "UPDATE facts SET expired_at = ?1 WHERE id = ?2 AND expired_at IS NULL",
                params: seq![StatementParam::Now, StatementParam::DoomedFact(i)],
            },
            MergeStatement::AddAccess => StatementText {
                sql: "UPDATE entities SET access_count = access_count + ?1 WHERE id = ?2 AND group_id = ?3",
                params: seq![
                    StatementParam::AccessCount,
                    StatementParam::Keeper,
                    StatementParam::Group,
                ],
            },
            MergeStatement::SetConfidence(c) => StatementText {
                sql: "UPDATE entities SET ner_confidence = ?1 WHERE id = ?2 AND group_id = ?3",
                params: seq![
                    StatementParam::Confidence(confidence_column(c)),
                    StatementParam::Keeper,
                    StatementParam::Group,
                ],
            },
            MergeStatement::DeleteFullText => StatementText {
                sql: "DELETE FROM entities_fts WHERE entity_id = ?1",
                params: seq![StatementParam::Loser],
            },
            MergeStatement::DeleteEntity => StatementText {
                sql: "DELETE FROM entities WHERE id = ?1 AND group_id = ?2",
                params: seq![StatementParam::Loser, StatementParam::Group],
            },
            MergeStatement::InsertAudit => StatementText {
                sql: "INSERT INTO identity_verdict_audit (site, group_id, candidate_a, candidate_b, cosine, structural_signal, llm_is_same, llm_confidence, llm_reasoning, decision, run_id) VALUES (?1, ?2, ?3, ?4, ?5, ?6, ?7, ?8, ?9, ?10, ?11)",
                params: seq![StatementParam::AuditColumns],
            },
        }
    }

    /// The text of the statement.
    pub fn sql(&self) -> (r: &'static str)
        ensures
            r == self.text().sql,
            *self is RepointSubjects ==> r@ == "UPDATE facts SET subject_id = ?1, corroboration_inert = 1 WHERE subject_id = ?2 AND subject_group_id = ?3"@,
            *self is RepointObjects ==> r@ == "UPDATE facts SET object_id = ?1, corroboration_inert = 1 WHERE object_id = ?2 AND object_group_id = ?3"@,
            *self is RepointEdges ==> r@ == "UPDATE OR IGNORE episodic_edges SET entity_id = ?1 WHERE entity_id = ?2 AND entity_group_id = ?3"@,
            *self is DropLoserEdges ==> r@ == "DELETE FROM episodic_edges WHERE entity_id = ?1 AND entity_group_id = ?2"@,
            *self is ExpireFact ==> r@ == "UPDATE facts SET expired_at = ?1 WHERE id = ?2 AND expired_at IS NULL"@,
            *self is AddAccess ==> r@ == "UPDATE entities SET access_count = access_count + ?1 WHERE id = ?2 AND group_id = ?3"@,
            *self is SetConfidence ==> r@ == "UPDATE entities SET ner_confidence = ?1 WHERE id = ?2 AND group_id = ?3"@,
            *self is DeleteFullText ==> r@ == "DELETE FROM entities_fts WHERE entity_id = ?1"@,
            *self is DeleteEntity ==> r@ == "DELETE FROM entities WHERE id = ?1 AND group_id = ?2"@,
            *self is InsertAudit ==> r@ == "INSERT INTO identity_verdict_audit (site, group_id, candidate_a, candidate_b, cosine, structural_signal, llm_is_same, llm_confidence, llm_reasoning, decision, run_id) VALUES (?1, ?2, ?3, ?4, ?5, ?6, ?7, ?8, ?9, ?10, ?11)"@,
    {
        match self {
            MergeStatement::RepointSubjects => "UPDATE facts SET subject_id = ?1, corroboration_inert = 1 WHERE subject_id = ?2 AND subject_group_id = ?3",
            MergeStatement::RepointObjects => "UPDATE facts SET object_id = ?1, corroboration_inert = 1 WHERE object_id = ?2 AND object_group_id = ?3",
            MergeStatement::RepointEdges => "UPDATE OR IGNORE episodic_edges SET entity_id = ?1 WHERE entity_id = ?2 AND entity_group_id = ?3",
            MergeStatement::DropLoserEdges => "DELETE FROM episodic_edges WHERE entity_id = ?1 AND entity_group_id = ?2",
            MergeStatement::ExpireFact(_) => "UPDATE facts SET expired_at = ?1 WHERE id = ?2 AND expired_at IS NULL",
            MergeStatement::AddAccess => "UPDATE entities SET access_count = access_count + ?1 WHERE id = ?2 AND group_id = ?3",
            MergeStatement::SetConfidence(_) => "UPDATE entities SET ner_confidence = ?1 WHERE id = ?2 AND group_id = ?3",
            MergeStatement::DeleteFullText => "DELETE FROM entities_fts WHERE entity_id = ?1",
            MergeStatement::DeleteEntity => "DELETE FROM entities WHERE id = ?1 AND group_id = ?2",
            MergeStatement::InsertAudit => "INSERT INTO identity_verdict_audit (site, group_id, candidate_a, candidate_b, cosine, structural_signal, llm_is_same, llm_confidence, llm_reasoning, decision, run_id) VALUES (?1, ?2, ?3, ?4, ?5, ?6, ?7, ?8, ?9, ?10, ?11)",
        }
    }

    /// The parameters of the statement, in order.
    pub fn params(&self) -> (r: Vec<StatementParam>)
        ensures
            r@ == self.text().params,
            *self is RepointSubjects || *self is RepointObjects || *self is RepointEdges ==> r@
                == seq![StatementParam::Keeper, StatementParam::Loser, StatementParam::Group],
            *self is DropLoserEdges || *self is DeleteEntity ==> r@ == seq![
                StatementParam::Loser,
                StatementParam::Group,
            ],
            *self matches MergeStatement::ExpireFact(i) ==> r@ == seq![
                StatementParam::Now,
                StatementParam::DoomedFact(i),
            ],
            *self is AddAccess ==> r@ == seq![
                StatementParam::AccessCount,
                StatementParam::Keeper,
                StatementParam::Group,
            ],
            *self matches MergeStatement::SetConfidence(v) ==> r@ == seq![
                StatementParam::Confidence(
                    if v.nan() {
                        None
                    } else {
                        Some(v.widened())
                    },
                ),
                StatementParam::Keeper,
                StatementParam::Group,
            ],
            *self is DeleteFullText ==> r@ == seq![StatementParam::Loser],
            *self is InsertAudit ==> r@ == seq![StatementParam::AuditColumns],
    {
        match *self {
            MergeStatement::RepointSubjects => vec![
                StatementParam::Keeper,
                StatementParam::Loser,
                StatementParam::Group,
            ],
            MergeStatement::RepointObjects => vec![
                StatementParam::Keeper,
                StatementParam::Loser,
                StatementParam::Group,
            ],
            MergeStatement::RepointEdges => vec![
                StatementParam::Keeper,
                StatementParam::Loser,
                StatementParam::Group,
            ],
            MergeStatement::DropLoserEdges => vec![StatementParam::Loser, StatementParam::Group],
            MergeStatement::ExpireFact(i) => vec![
                StatementParam::Now,
                StatementParam::DoomedFact(i),
            ],
            MergeStatement::AddAccess => vec![
                StatementParam::AccessCount,
                StatementParam::Keeper,
                StatementParam::Group,
            ],
            MergeStatement::SetConfidence(c) => vec![
                StatementParam::Confidence(store_confidence(c)),
                StatementParam::Keeper,
                StatementParam::Group,
            ],
            MergeStatement::DeleteFullText => vec![StatementParam::Loser],
            MergeStatement::DeleteEntity => vec![StatementParam::Loser, StatementParam::Group],
            MergeStatement::InsertAudit => vec![StatementParam::AuditColumns],
        }
    }
}

/// What the executor needs done next.
#[derive(Debug)]
pub enum MergeRequest {
    /// Open a transaction unless one is open; the reply is [`MergeReply::Began`].
    Begin,
    /// Read the loser's access count and confidence; the reply is [`MergeReply::Loser`].
    ReadLoser,
    /// Capture and record the pre-state; the reply is [`MergeReply::Captured`].
    Capture,
    /// Execute a write; the reply is [`MergeReply::Executed`].
    Execute(MergeStatement),
    /// Read the keeper's confidence; the reply is [`MergeReply::KeeperConfidence`].
    ReadKeeperConfidence,
    /// Commit; the reply is [`MergeReply::Committed`].
    Commit,
    /// Roll back, whatever comes of it; the reply is [`MergeReply::RolledBack`].
    Rollback,
    /// Count the recorded merge, and where `embed` is set compute the keeper's vector
    /// anew; the reply is [`MergeReply::Embedded`].
    AfterCommit { embed: bool },
    /// Store the keeper's new vector; the reply is [`MergeReply::Persisted`].
    PersistEmbedding,
    /// The merge is over.
    Finish(Result<(), Error>),
}

/// How a request of the executor was answered.
#[derive(Debug)]
pub enum MergeReply {
    /// Whether the transaction was opened here and not by an outer caller.
    Began(Result<bool, Error>),
    /// The loser's access count and confidence; zero and none when unreadable.
    Loser { access_count: i64, confidence: Option<Binary32> },
    /// How many facts the merge collapses, once the pre-state is recorded.
    Captured(Result<usize, Error>),
    Executed(Result<(), Error>),
    /// The keeper's confidence, and its noisy-OR with the loser's.
    KeeperConfidence { confidence: Option<Binary32>, combined: Binary32 },
    Committed(Result<(), Error>),
    RolledBack,
    /// Whether the keeper's vector was computed; `None` when it was not asked for.
    Embedded(Option<bool>),
    /// Whether the keeper's vector was stored.
    Persisted(bool),
}

/// The request that the executor waits on.
#[derive(Debug, Clone, Copy, PartialEq, Eq, Structural)]
pub enum MergePoint {
    Begin,
    ReadLoser,
    Capture,
    Execute(MergeStatement),
    ReadKeeperConfidence,
    Commit,
    Rollback,
    AfterCommit,
    Persist,
    Finished,
}

impl MergePoint {
    /// `reply` answers the request that was made at this point.
    pub open spec fn expects(self, reply: MergeReply) -> bool {
        match self {
            MergePoint::Begin => reply is Began,
            MergePoint::ReadLoser => reply is Loser,
            MergePoint::Capture => reply is Captured,
            MergePoint::Execute(_) => reply is Executed,
            MergePoint::ReadKeeperConfidence => reply is KeeperConfidence,
            MergePoint::Commit => reply is Committed,
            MergePoint::Rollback => reply is RolledBack,
            MergePoint::AfterCommit => reply is Embedded,
            MergePoint::Persist => reply is Persisted,
            MergePoint::Finished => false,
        }
    }
}

/// One merge on its way.
#[derive(Debug)]
pub struct MergeRun {
    /// Whether an audit row belongs to the merge.
    pub audited: bool,
    /// Whether the keeper's vector is to be refreshed.
    pub embeds: bool,
    /// Whether the transaction was opened here.
    pub opened: bool,
    pub access_count: i64,
    pub loser_confidence: Option<Binary32>,
    /// How many facts the merge collapses.
    pub doomed: usize,
    /// Why the merge is being rolled back.
    pub failure: Option<Error>,
    pub point: MergePoint,
}

/// Where a statement's success leads.
pub enum Next {
    Execute(MergeStatement),
    ReadKeeperConfidence,
    Commit,
}

/// Goes on with collapsed fact `i`, and behind the last one with the keeper's counts.
pub open spec fn expire_from(doomed: usize, access_count: i64, i: int) -> Next {
    if i < doomed {
        Next::Execute(MergeStatement::ExpireFact(i as usize))
    } else if access_count > 0 {
        Next::Execute(MergeStatement::AddAccess)
    } else {
        Next::ReadKeeperConfidence
    }
}

/// What follows a statement that succeeded.
pub open spec fn next_after(
    statement: MergeStatement,
    doomed: usize,
    access_count: i64,
    audited: bool,
) -> Next {
    match statement {
        MergeStatement::RepointSubjects => Next::Execute(MergeStatement::RepointObjects),
        MergeStatement::RepointObjects => Next::Execute(MergeStatement::RepointEdges),
        MergeStatement::RepointEdges => Next::Execute(MergeStatement::DropLoserEdges),
        MergeStatement::DropLoserEdges => expire_from(doomed, access_count, 0),
        MergeStatement::ExpireFact(i) => expire_from(doomed, access_count, i + 1),
        MergeStatement::AddAccess => Next::ReadKeeperConfidence,
        MergeStatement::SetConfidence(_) => Next::Execute(MergeStatement::DeleteFullText),
        MergeStatement::DeleteFullText => Next::Execute(MergeStatement::DeleteEntity),
        MergeStatement::DeleteEntity => if audited {
            Next::Execute(MergeStatement::InsertAudit)
        } else {
            Next::Commit
        },
        MergeStatement::InsertAudit => Next::Commit,
    }
}

/// A transition of the executor.
pub struct MergeTransition {
    pub run: MergeRun,
    pub request: MergeRequest,
}

/// Goes to `point` with `request`.
pub open spec fn goes(run: MergeRun, point: MergePoint, request: MergeRequest) -> MergeTransition {
    MergeTransition { run: MergeRun { point, ..run }, request }
}

/// Goes where the last statement leads.
pub open spec fn goes_on(run: MergeRun, next: Next) -> MergeTransition {
    match next {
        Next::Execute(s) => goes(run, MergePoint::Execute(s), MergeRequest::Execute(s)),
        Next::ReadKeeperConfidence => goes(
            run,
            MergePoint::ReadKeeperConfidence,
            MergeRequest::ReadKeeperConfidence,
        ),
        Next::Commit => goes(run, MergePoint::Commit, MergeRequest::Commit),
    }
}

/// Rolls back because of `e`.
pub open spec fn rolls_back(run: MergeRun, e: Error) -> MergeTransition {
    goes(
        MergeRun { failure: Some(e), ..run },
        MergePoint::Rollback,
        MergeRequest::Rollback,
    )
}

/// Ends the merge.
pub open spec fn finishes(run: MergeRun, result: Result<(), Error>) -> MergeTransition {
    goes(run, MergePoint::Finished, MergeRequest::Finish(result))
}

/// How the executor answers a reply.
pub open spec fn merge_transition(run: MergeRun, reply: MergeReply) -> MergeTransition {
    match (run.point, reply) {
        (MergePoint::Begin, MergeReply::Began(Ok(opened))) => goes(
            MergeRun { opened, ..run },
            MergePoint::ReadLoser,
            MergeRequest::ReadLoser,
        ),
        (MergePoint::Begin, MergeReply::Began(Err(e))) => finishes(run, Err(e)),
        (MergePoint::ReadLoser, MergeReply::Loser { access_count, confidence }) => goes(
            MergeRun { access_count, loser_confidence: confidence, ..run },
            MergePoint::Capture,
            MergeRequest::Capture,
        ),
        (MergePoint::Capture, MergeReply::Captured(Ok(doomed))) => goes_on(
            MergeRun { doomed, ..run },
            Next::Execute(MergeStatement::RepointSubjects),
        ),
        (MergePoint::Capture, MergeReply::Captured(Err(e))) => rolls_back(run, e),
        (MergePoint::Execute(s), MergeReply::Executed(Ok(_))) => goes_on(
            run,
            next_after(s, run.doomed, run.access_count, run.audited),
        ),
        (MergePoint::Execute(_), MergeReply::Executed(Err(e))) => rolls_back(run, e),
        (
            MergePoint::ReadKeeperConfidence,
            MergeReply::KeeperConfidence { confidence, combined },
        ) => goes_on(
            run,
            Next::Execute(
                match merged(confidence, run.loser_confidence, combined) {
                    Some(c) => MergeStatement::SetConfidence(c),
                    None => MergeStatement::DeleteFullText,
                },
            ),
        ),
        (MergePoint::Commit, MergeReply::Committed(Ok(_))) => if run.opened {
            goes(
                run,
                MergePoint::AfterCommit,
                MergeRequest::AfterCommit { embed: run.embeds },
            )
        } else {
            finishes(run, Ok(()))
        },
        (MergePoint::Commit, MergeReply::Committed(Err(e))) => finishes(run, Err(e)),
        (MergePoint::Rollback, MergeReply::RolledBack) => finishes(
            MergeRun { failure: None, ..run },
            Err(run.failure->0),
        ),
        (MergePoint::AfterCommit, MergeReply::Embedded(Some(true))) => goes(
            run,
            MergePoint::Persist,
            MergeRequest::PersistEmbedding,
        ),
        (MergePoint::AfterCommit, MergeReply::Embedded(_)) => finishes(run, Ok(())),
        (MergePoint::Persist, MergeReply::Persisted(_)) => finishes(run, Ok(())),
        _ => arbitrary(),
    }
}

impl MergeRun {
    /// A failure is held exactly while the merge is being rolled back, and a collapsed
    /// fact that is being expired is one of those that were counted.
    pub open spec fn wf(self) -> bool {
        &&& self.point == MergePoint::Rollback <==> self.failure is Some
        &&& self.point matches MergePoint::Execute(MergeStatement::ExpireFact(i)) ==> i
            < self.doomed
    }

    /// Starts a merge; the first request opens the transaction.
    pub fn start(audited: bool, embeds: bool) -> (r: MergeRun)
        ensures
            r.wf(),
            r == (MergeRun {
                audited,
                embeds,
                opened: false,
                access_count: 0,
                loser_confidence: None,
                doomed: 0,
                failure: None,
                point: MergePoint::Begin,
            }),
    {
        MergeRun {
            audited,
            embeds,
            opened: false,
            access_count: 0,
            loser_confidence: None,
            doomed: 0,
            failure: None,
            point: MergePoint::Begin,
        }
    }

    /// Executes a statement next.
    fn execute(&mut self, s: MergeStatement) -> (r: MergeRequest)
        ensures
            *final(self) == (MergeRun { point: MergePoint::Execute(s), ..*old(self) }),
            r == MergeRequest::Execute(s),
    {
        self.point = MergePoint::Execute(s);
        MergeRequest::Execute(s)
    }

    /// Goes on with collapsed fact `i`, and behind the last one with the keeper's counts.
    fn expire(&mut self, i: usize) -> (r: MergeRequest)
        ensures
            *final(self) == goes_on(
                *old(self),
                expire_from(old(self).doomed, old(self).access_count, i as int),
            ).run,
            r == goes_on(
                *old(self),
                expire_from(old(self).doomed, old(self).access_count, i as int),
            ).request,
    {
        if i < self.doomed {
            self.execute(MergeStatement::ExpireFact(i))
        } else if self.access_count > 0 {
            self.execute(MergeStatement::AddAccess)
        } else {
            self.point = MergePoint::ReadKeeperConfidence;
            MergeRequest::ReadKeeperConfidence
        }
    }

    /// Rolls back because of `e`.
    fn roll_back(&mut self, e: Error) -> (r: MergeRequest)
        ensures
            *final(self) == rolls_back(*old(self), e).run,
            r == rolls_back(*old(self), e).request,
    {
        self.failure = Some(e);
        self.point = MergePoint::Rollback;
        MergeRequest::Rollback
    }

    /// Takes the reply to the last request and says what follows.
    pub fn step(&mut self, reply: MergeReply) -> (r: MergeRequest)
        requires
            old(self).wf(),
            old(self).point.expects(reply),
        ensures
            final(self).wf(),
            *final(self) == merge_transition(*old(self), reply).run,
            r == merge_transition(*old(self), reply).request,
    {
        match reply {
            MergeReply::Began(result) => match result {
                Ok(opened) => {
                    self.opened = opened;
                    self.point = MergePoint::ReadLoser;
                    MergeRequest::ReadLoser
                },
                Err(e) => {
                    self.point = MergePoint::Finished;
                    MergeRequest::Finish(Err(e))
                },
            },
            MergeReply::Loser { access_count, confidence } => {
                self.access_count = access_count;
                self.loser_confidence = confidence;
                self.point = MergePoint::Capture;
                MergeRequest::Capture
            },
            MergeReply::Captured(result) => match result {
                Ok(doomed) => {
                    self.doomed = doomed;
                    self.execute(MergeStatement::RepointSubjects)
                },
                Err(e) => self.roll_back(e),
            },
            MergeReply::Executed(result) => match result {
                Ok(_) => self.after_statement(),
                Err(e) => self.roll_back(e),
            },
            MergeReply::KeeperConfidence { confidence, combined } => {
                match merged_confidence(confidence, self.loser_confidence, combined) {
                    Some(c) => self.execute(MergeStatement::SetConfidence(c)),
                    None => self.execute(MergeStatement::DeleteFullText),
                }
            },
            MergeReply::Committed(result) => match result {
                Ok(_) => {
                    if self.opened {
                        self.point = MergePoint::AfterCommit;
                        MergeRequest::AfterCommit { embed: self.embeds }
                    } else {
                        self.point = MergePoint::Finished;
                        MergeRequest::Finish(Ok(()))
                    }
                },
                Err(e) => {
                    self.point = MergePoint::Finished;
                    MergeRequest::Finish(Err(e))
                },
            },
            MergeReply::RolledBack => {
                self.point = MergePoint::Finished;
                match self.failure.take() {
                    Some(e) => MergeRequest::Finish(Err(e)),
                    None => MergeRequest::Finish(Ok(())),
                }
            },
            MergeReply::Embedded(computed) => match computed {
                Some(true) => {
                    self.point = MergePoint::Persist;
                    MergeRequest::PersistEmbedding
                },
                _ => {
                    self.point = MergePoint::Finished;
                    MergeRequest::Finish(Ok(()))
                },
            },
            MergeReply::Persisted(_) => {
                self.point = MergePoint::Finished;
                MergeRequest::Finish(Ok(()))
            },
        }
    }

    /// Goes where the statement that just succeeded leads.
    fn after_statement(&mut self) -> (r: MergeRequest)
        requires
            old(self).wf(),
            old(self).point is Execute,
        ensures
            ({
                let t = goes_on(
                    *old(self),
                    next_after(
                        old(self).point->Execute_0,
                        old(self).doomed,
                        old(self).access_count,
                        old(self).audited,
                    ),
                );
                *final(self) == t.run && r == t.request
            }),
    {
        let statement = match self.point {
            MergePoint::Execute(s) => s,
            _ => MergeStatement::InsertAudit,
        };
        match statement {
            MergeStatement::RepointSubjects => self.execute(MergeStatement::RepointObjects),
            MergeStatement::RepointObjects => self.execute(MergeStatement::RepointEdges),
            MergeStatement::RepointEdges => self.execute(MergeStatement::DropLoserEdges),
            MergeStatement::DropLoserEdges => self.expire(0),
            MergeStatement::ExpireFact(i) => self.expire(i + 1),
            MergeStatement::AddAccess => {
                self.point = MergePoint::ReadKeeperConfidence;
                MergeRequest::ReadKeeperConfidence
            },
            MergeStatement::SetConfidence(_) => self.execute(MergeStatement::DeleteFullText),
            MergeStatement::DeleteFullText => self.execute(MergeStatement::DeleteEntity),
            MergeStatement::DeleteEntity => {
                if self.audited {
                    self.execute(MergeStatement::InsertAudit)
                } else {
                    self.point = MergePoint::Commit;
                    MergeRequest::Commit
                }
            },
            MergeStatement::InsertAudit => {
                self.point = MergePoint::Commit;
                MergeRequest::Commit
            },
        }
    }
}

/// Metric label of a refresh of the keeper's vector: whether it was computed, and if so
/// whether it was stored.
pub fn reembed_label(computed: bool, stored: bool) -> (r: &'static str)
    ensures
        r == (if !computed {
            "embed_failed"
        } else if !stored {
            "persist_failed"
        } else {
            "success"
        }),
{
    if !computed {
        "embed_failed"
    } else if !stored {
        "persist_failed"
    } else {
        "success"
    }
}

/// The writes of a whole merge in order: `doomed` facts collapse, the loser was accessed
/// `access_count` times, and `confidence` is what the keeper's confidence becomes.
pub open spec fn merge_script(
    doomed: usize,
    access_count: i64,
    confidence: Option<Binary32>,
    audited: bool,
) -> Seq<MergeStatement> {
    seq![
        MergeStatement::RepointSubjects,
        MergeStatement::RepointObjects,
        MergeStatement::RepointEdges,
        MergeStatement::DropLoserEdges,
    ] + script_from(MergeStatement::DropLoserEdges, doomed, access_count, confidence, audited)
}

/// The writes that are left behind collapsed fact `i - 1`.
pub open spec fn script_expiring(
    i: nat,
    doomed: usize,
    access_count: i64,
    confidence: Option<Binary32>,
    audited: bool,
) -> Seq<MergeStatement> {
    Seq::new(
        (doomed - i) as nat,
        |k: int| MergeStatement::ExpireFact((i + k) as usize),
    ) + (if access_count > 0 {
        seq![MergeStatement::AddAccess]
    } else {
        seq![]
    }) + script_after_counts(confidence, audited)
}

/// The writes that are left behind the keeper's counts.
pub open spec fn script_after_counts(confidence: Option<Binary32>, audited: bool) -> Seq<
    MergeStatement,
> {
    (match confidence {
        Some(c) => seq![MergeStatement::SetConfidence(c)],
        None => seq![],
    }) + seq![MergeStatement::DeleteFullText, MergeStatement::DeleteEntity] + (if audited {
        seq![MergeStatement::InsertAudit]
    } else {
        seq![]
    })
}

/// The writes that are left behind `statement`.
pub open spec fn script_from(
    statement: MergeStatement,
    doomed: usize,
    access_count: i64,
    confidence: Option<Binary32>,
    audited: bool,
) -> Seq<MergeStatement> {
    match statement {
        MergeStatement::RepointSubjects => seq![
            MergeStatement::RepointObjects,
            MergeStatement::RepointEdges,
            MergeStatement::DropLoserEdges,
        ] + script_expiring(0, doomed, access_count, confidence, audited),
        MergeStatement::RepointObjects => seq![
            MergeStatement::RepointEdges,
            MergeStatement::DropLoserEdges,
        ] + script_expiring(0, doomed, access_count, confidence, audited),
        MergeStatement::RepointEdges => seq![MergeStatement::DropLoserEdges] + script_expiring(
            0,
            doomed,
            access_count,
            confidence,
            audited,
        ),
        MergeStatement::DropLoserEdges => script_expiring(
            0,
            doomed,
            access_count,
            confidence,
            audited,
        ),
        MergeStatement::ExpireFact(i) => script_expiring(
            (i + 1) as nat,
            doomed,
            access_count,
            confidence,
            audited,
        ),
        MergeStatement::AddAccess => script_after_counts(confidence, audited),
        MergeStatement::SetConfidence(_) => script_after_counts(None, audited),
        MergeStatement::DeleteFullText => seq![MergeStatement::DeleteEntity] + (if audited {
            seq![MergeStatement::InsertAudit]
        } else {
            seq![]
        }),
        MergeStatement::DeleteEntity => if audited {
            seq![MergeStatement::InsertAudit]
        } else {
            seq![]
        },
        MergeStatement::InsertAudit => seq![],
    }
}

/// The writes that a run at this point still has before it, when none fails.
pub open spec fn script_left(run: MergeRun, confidence: Option<Binary32>) -> Seq<MergeStatement> {
    match run.point {
        MergePoint::Execute(s) => seq![s] + script_from(
            s,
            run.doomed,
            run.access_count,
            confidence,
            run.audited,
        ),
        MergePoint::ReadKeeperConfidence => script_after_counts(confidence, run.audited),
        _ => seq![],
    }
}

/// Each reply answers the request before it.
pub open spec fn merge_answered(run: MergeRun, replies: Seq<MergeReply>) -> bool
    decreases replies.len(),
{
    replies.len() == 0 || (run.point.expects(replies[0]) && merge_answered(
        merge_transition(run, replies[0]).run,
        replies.drop_first(),
    ))
}

/// The executor after a run of replies.
pub open spec fn merge_after(run: MergeRun, replies: Seq<MergeReply>) -> MergeRun
    decreases replies.len(),
{
    if replies.len() == 0 {
        run
    } else {
        merge_after(merge_transition(run, replies[0]).run, replies.drop_first())
    }
}

/// The writes that succeeded during a run of replies, in order.
pub open spec fn executed(run: MergeRun, replies: Seq<MergeReply>) -> Seq<MergeStatement>
    decreases replies.len(),
{
    if replies.len() == 0 {
        seq![]
    } else {
        let here = match (run.point, replies[0]) {
            (MergePoint::Execute(s), MergeReply::Executed(Ok(_))) => seq![s],
            _ => seq![],
        };
        here + executed(merge_transition(run, replies[0]).run, replies.drop_first())
    }
}

/// The confidence that the run settles on, once the keeper's is read.
pub open spec fn settled_confidence(run: MergeRun, replies: Seq<MergeReply>) -> Option<Binary32>
    decreases replies.len(),
{
    if replies.len() == 0 {
        None
    } else {
        match (run.point, replies[0]) {
            (
                MergePoint::ReadKeeperConfidence,
                MergeReply::KeeperConfidence { confidence, combined },
            ) => merged(confidence, run.loser_confidence, combined),
            _ => settled_confidence(merge_transition(run, replies[0]).run, replies.drop_first()),
        }
    }
}

/// What is written stays within the transaction: before the commit, or rolled back.
pub open spec fn before_commit(point: MergePoint) -> bool {
    point is Execute || point == MergePoint::ReadKeeperConfidence
}

#[verifier::rlimit(60)]
#[verifier::spinoff_prover]
proof fn script_unfolds(run: MergeRun, reply: MergeReply, confidence: Option<Binary32>)
    requires
        run.wf(),
        before_commit(run.point),
        run.point.expects(reply),
        reply matches MergeReply::Executed(r) ==> r is Ok,
        reply matches MergeReply::KeeperConfidence { confidence: k, combined } ==> merged(
            k,
            run.loser_confidence,
            combined,
        ) == confidence,
    ensures
        ({
            let t = merge_transition(run, reply).run;
            let done = match run.point {
                MergePoint::Execute(s) => seq![s],
                _ => seq![],
            };
            script_left(run, confidence) == done + script_left(t, confidence)
        }),
{
    let t = merge_transition(run, reply).run;
    match run.point {
        MergePoint::Execute(s) => {
            match s {
                MergeStatement::DropLoserEdges => {
                    expiring_unfolds(0, run.doomed, run.access_count, confidence, run.audited);
                    assert(script_left(run, confidence) =~= seq![s] + script_left(t, confidence));
                },
                MergeStatement::ExpireFact(i) => {
                    expiring_unfolds(
                        (i + 1) as nat,
                        run.doomed,
                        run.access_count,
                        confidence,
                        run.audited,
                    );
                    assert(script_left(run, confidence) =~= seq![s] + script_left(t, confidence));
                },
                MergeStatement::RepointSubjects => {
                    assert(script_left(run, confidence) =~= seq![s] + script_left(t, confidence));
                },
                MergeStatement::RepointObjects => {
                    assert(script_left(run, confidence) =~= seq![s] + script_left(t, confidence));
                },
                MergeStatement::RepointEdges => {
                    assert(script_left(run, confidence) =~= seq![s] + script_left(t, confidence));
                },
                MergeStatement::AddAccess => {
                    assert(script_left(run, confidence) =~= seq![s] + script_left(t, confidence));
                },
                MergeStatement::SetConfidence(_) => {
                    assert(script_left(run, confidence) =~= seq![s] + script_left(t, confidence));
                },
                MergeStatement::DeleteFullText => {
                    assert(script_left(run, confidence) =~= seq![s] + script_left(t, confidence));
                },
                MergeStatement::DeleteEntity => {
                    assert(script_left(run, confidence) =~= seq![s] + script_left(t, confidence));
                },
                MergeStatement::InsertAudit => {
                    assert(script_left(run, confidence) =~= seq![s] + script_left(t, confidence));
                },
            }
        },
        _ => {
            assert(script_left(run, confidence) =~= script_left(t, confidence));
        },
    }
}

proof fn expiring_unfolds(
    i: nat,
    doomed: usize,
    access_count: i64,
    confidence: Option<Binary32>,
    audited: bool,
)
    requires
        i <= doomed,
    ensures
        script_expiring(i, doomed, access_count, confidence, audited) == (if i < doomed {
            seq![MergeStatement::ExpireFact(i as usize)] + script_expiring(
                i + 1,
                doomed,
                access_count,
                confidence,
                audited,
            )
        } else if access_count > 0 {
            seq![MergeStatement::AddAccess] + script_after_counts(confidence, audited)
        } else {
            script_after_counts(confidence, audited)
        }),
{
    let all = script_expiring(i, doomed, access_count, confidence, audited);
    if i < doomed {
        assert(all =~= seq![MergeStatement::ExpireFact(i as usize)] + script_expiring(
            i + 1,
            doomed,
            access_count,
            confidence,
            audited,
        ));
    } else if access_count > 0 {
        assert(all =~= seq![MergeStatement::AddAccess] + script_after_counts(confidence, audited));
    } else {
        assert(all =~= script_after_counts(confidence, audited));
    }
}

/// A commit is asked for only when every write of the merge succeeded, each once and in
/// order, the audit row among them. Together with the rollback on any failure this makes
/// the merge and its records one event: all of it happens, or none.
pub proof fn law_commit_means_the_whole_script(run: MergeRun, replies: Seq<MergeReply>)
    requires
        run.wf(),
        before_commit(run.point),
        merge_answered(run, replies),
        merge_after(run, replies).point == MergePoint::Commit,
    ensures
        executed(run, replies) == script_left(run, settled_confidence(run, replies)),
        forall|i: int|
            0 <= i < replies.len() ==> (#[trigger] replies[i] matches MergeReply::Executed(r)
                ==> r is Ok),
    decreases replies.len(),
{
    reveal_with_fuel(merge_answered, 3);
    reveal_with_fuel(merge_after, 3);
    reveal_with_fuel(executed, 2);
    let t = merge_transition(run, replies[0]).run;
    let rest = replies.drop_first();
    if let MergeReply::Executed(Err(e)) = replies[0] {
        law_failure_rolls_back(t, rest);
    } else {
        let confidence = settled_confidence(run, replies);
        script_unfolds(run, replies[0], confidence);
        if t.point == MergePoint::Commit {
            if rest.len() > 0 {
                committed_is_over(merge_transition(t, rest[0]).run, rest.drop_first());
            }
        } else {
            law_commit_means_the_whole_script(t, rest);
            if run.point == MergePoint::ReadKeeperConfidence {
                assert(script_left(t, confidence) == script_left(t, settled_confidence(t, rest)));
            }
        }
        assert forall|i: int| 0 <= i < replies.len() implies (
        #[trigger] replies[i] matches MergeReply::Executed(r) ==> r is Ok) by {
            if i > 0 {
                assert(replies[i] == rest[i - 1]);
            }
        }
    }
}

/// The points behind the commit.
pub open spec fn behind_commit(point: MergePoint) -> bool {
    point == MergePoint::AfterCommit || point == MergePoint::Persist || point
        == MergePoint::Finished
}

proof fn committed_is_over(run: MergeRun, replies: Seq<MergeReply>)
    requires
        merge_answered(run, replies),
        behind_commit(run.point),
    ensures
        behind_commit(merge_after(run, replies).point),
    decreases replies.len(),
{
    if replies.len() > 0 {
        committed_is_over(merge_transition(run, replies[0]).run, replies.drop_first());
    }
}

/// A merge that is being rolled back executes no further write, never commits, and hands
/// on the very error that it failed with.
pub proof fn law_failure_rolls_back(run: MergeRun, replies: Seq<MergeReply>)
    requires
        run.point == MergePoint::Rollback,
        run.failure is Some,
        merge_answered(run, replies),
    ensures
        merge_after(run, replies).point != MergePoint::Commit,
        executed(run, replies) == Seq::<MergeStatement>::empty(),
        replies.len() <= 1,
        replies.len() == 1 ==> merge_transition(run, replies[0]).request == MergeRequest::Finish(
            Err(run.failure->0),
        ),
{
    reveal_with_fuel(merge_after, 2);
    if replies.len() > 0 {
        let t = merge_transition(run, replies[0]).run;
        let rest = replies.drop_first();
        assert(merge_answered(t, rest));
        assert(rest.len() == 0);
        assert(executed(t, rest) =~= Seq::<MergeStatement>::empty());
        assert(executed(run, replies) =~= Seq::<MergeStatement>::empty());
    }
}

/// Nothing that happens behind the commit turns the merge into a failure.
pub proof fn law_refresh_never_fails_the_merge(run: MergeRun, reply: MergeReply)
    requires
        run.point == MergePoint::AfterCommit || run.point == MergePoint::Persist,
        run.point.expects(reply),
    ensures
        merge_transition(run, reply).request matches MergeRequest::Finish(r) ==> r is Ok,
        !(merge_transition(run, reply).request is Rollback),
{
}

/// What is left when the first write is asked for is the whole script.
pub proof fn law_script_is_the_whole_merge(run: MergeRun, confidence: Option<Binary32>)
    requires
        run.point == MergePoint::Execute(MergeStatement::RepointSubjects),
    ensures
        script_left(run, confidence) == merge_script(
            run.doomed,
            run.access_count,
            confidence,
            run.audited,
        ),
{
    assert(script_left(run, confidence) =~= merge_script(
        run.doomed,
        run.access_count,
        confidence,
        run.audited,
    ));
}

/// An error is never passed over and never replaced: one that opening or committing the
/// transaction gave ends the merge with it, and any other rolls the merge back because of
/// it.
pub proof fn law_every_error_is_handed_on(run: MergeRun, reply: MergeReply, e: Error)
    requires
        run.point.expects(reply),
        reply == MergeReply::Began(Err(e)) || reply == MergeReply::Captured(Err(e)) || reply
            == MergeReply::Executed(Err(e)) || reply == MergeReply::Committed(Err(e)),
    ensures
        reply is Began || reply is Committed ==> merge_transition(run, reply).request
            == MergeRequest::Finish(Err(e)),
        reply is Captured || reply is Executed ==> merge_transition(run, reply).request is Rollback
            && merge_transition(run, reply).run.failure == Some(e),
{
}

/// A merge ends in success only when it was committed.
pub proof fn law_success_means_committed(run: MergeRun, reply: MergeReply)
    requires
        run.wf(),
        run.point.expects(reply),
        merge_transition(run, reply).request == MergeRequest::Finish(Ok(())),
    ensures
        reply matches MergeReply::Committed(r) ==> r is Ok,
        reply is Committed || behind_commit(run.point),
{
}

/// Nothing is written before the pre-state was captured: the first write follows a capture
/// that succeeded, and every later one a write that succeeded or the reading of the keeper's
/// confidence.
pub proof fn law_nothing_is_written_before_the_capture(run: MergeRun, reply: MergeReply)
    requires
        run.point.expects(reply),
        merge_transition(run, reply).request is Execute,
    ensures
        match reply {
            MergeReply::Captured(r) => r is Ok && merge_transition(run, reply).request
                == MergeRequest::Execute(MergeStatement::RepointSubjects),
            MergeReply::Executed(r) => r is Ok && run.point is Execute,
            MergeReply::KeeperConfidence { .. } => true,
            _ => false,
        },
{
}

/// The run goes by what was read: the loser's accesses and confidence, the number of facts
/// that collapse and whether the transaction was opened here are those of the replies, and
/// nothing else changes them.
pub proof fn law_run_goes_by_what_was_read(run: MergeRun, reply: MergeReply)
    requires
        run.point.expects(reply),
    ensures
        ({
            let after = merge_transition(run, reply).run;
            &&& after.audited == run.audited
            &&& after.embeds == run.embeds
            &&& after.opened == (match reply {
                MergeReply::Began(Ok(opened)) => opened,
                _ => run.opened,
            })
            &&& after.access_count == (match reply {
                MergeReply::Loser { access_count, .. } => access_count,
                _ => run.access_count,
            })
            &&& after.loser_confidence == (match reply {
                MergeReply::Loser { confidence, .. } => confidence,
                _ => run.loser_confidence,
            })
            &&& after.doomed == (match reply {
                MergeReply::Captured(Ok(doomed)) => doomed,
                _ => run.doomed,
            })
        }),
{
}

/// The keeper's confidence is written exactly when one of the two entities has one, and what
/// is written is their combination when both do.
pub proof fn law_confidence_is_settled(
    run: MergeRun,
    confidence: Option<Binary32>,
    combined: Binary32,
)
    requires
        run.point == MergePoint::ReadKeeperConfidence,
    ensures
        ({
            let next = merge_transition(
                run,
                MergeReply::KeeperConfidence { confidence, combined },
            ).request;
            &&& next is Execute
            &&& next->Execute_0 is SetConfidence <==> confidence is Some
                || run.loser_confidence is Some
            &&& !(next->Execute_0 is SetConfidence) ==> next->Execute_0 is DeleteFullText
            &&& confidence is Some && run.loser_confidence is Some ==> next
                == MergeRequest::Execute(MergeStatement::SetConfidence(combined))
        }),
{
}

/// Behind a commit of its own transaction the merge is counted, and the keeper's vector is
/// computed anew exactly when that was asked for; a merge inside an outer transaction leaves
/// both to its caller.
pub proof fn law_refresh_follows_an_own_commit(run: MergeRun)
    requires
        run.point == MergePoint::Commit,
    ensures
        run.opened ==> merge_transition(run, MergeReply::Committed(Ok(()))).request == (
        MergeRequest::AfterCommit { embed: run.embeds }),
        !run.opened ==> merge_transition(run, MergeReply::Committed(Ok(()))).request
            == MergeRequest::Finish(Ok(())),
{
}

/// A new vector is stored exactly when it was computed.
pub proof fn law_vector_is_stored_once_computed(run: MergeRun, computed: Option<bool>)
    requires
        run.point == MergePoint::AfterCommit,
    ensures
        merge_transition(run, MergeReply::Embedded(computed)).request is PersistEmbedding
            <==> computed == Some(true),
{
}

/// The statement stands in the script.
pub open spec fn is_written(script: Seq<MergeStatement>, s: MergeStatement) -> bool {
    exists|i: int| 0 <= i < script.len() && #[trigger] script[i] == s
}

/// What a whole merge writes: both endpoints of facts, the edges and the loser's rows always,
/// every collapsed fact, the accesses when there are any, the confidence when there is one,
/// and the audit row exactly when the merge has one.
pub proof fn law_script_holds_every_write(
    doomed: usize,
    access_count: i64,
    confidence: Option<Binary32>,
    audited: bool,
)
    ensures
        ({
            let script = merge_script(doomed, access_count, confidence, audited);
            &&& is_written(script, MergeStatement::RepointSubjects)
            &&& is_written(script, MergeStatement::RepointObjects)
            &&& is_written(script, MergeStatement::RepointEdges)
            &&& is_written(script, MergeStatement::DropLoserEdges)
            &&& forall|i: usize|
                i < doomed ==> #[trigger] is_written(script, MergeStatement::ExpireFact(i))
            &&& access_count > 0 ==> is_written(script, MergeStatement::AddAccess)
            &&& confidence matches Some(v) ==> is_written(script, MergeStatement::SetConfidence(v))
            &&& is_written(script, MergeStatement::DeleteFullText)
            &&& is_written(script, MergeStatement::DeleteEntity)
            &&& is_written(script, MergeStatement::InsertAudit) <==> audited
        }),
{
    let script = merge_script(doomed, access_count, confidence, audited);
    let n = doomed as int;
    assert(script[0] == MergeStatement::RepointSubjects);
    assert(script[1] == MergeStatement::RepointObjects);
    assert(script[2] == MergeStatement::RepointEdges);
    assert(script[3] == MergeStatement::DropLoserEdges);
    assert forall|i: usize| i < doomed implies #[trigger] is_written(
        script,
        MergeStatement::ExpireFact(i),
    ) by {
        assert(script[4 + i] == MergeStatement::ExpireFact(i));
    }
    let at = 4 + n;
    if access_count > 0 {
        assert(script[at] == MergeStatement::AddAccess);
    }
    let counted = if access_count > 0 {
        at + 1
    } else {
        at
    };
    if let Some(v) = confidence {
        assert(script[counted] == MergeStatement::SetConfidence(v));
    }
    let trusted = if confidence is Some {
        counted + 1
    } else {
        counted
    };
    assert(script[trusted] == MergeStatement::DeleteFullText);
    assert(script[trusted + 1] == MergeStatement::DeleteEntity);
    if audited {
        assert(script[trusted + 2] == MergeStatement::InsertAudit);
    } else {
        assert(script.len() == trusted + 2);
        assert forall|i: int| 0 <= i < script.len() implies #[trigger] script[i]
            != MergeStatement::InsertAudit by {
            if 4 <= i < at {
                assert(script[i] == MergeStatement::ExpireFact((i - 4) as usize));
            }
        }
    }
}

/// The confidence column holds every confidence that is a number as the same number, and
/// nothing only where it is none.
pub proof fn law_confidence_is_stored_as_it_is(c: Binary32)
    ensures
        confidence_column(c) is None <==> 0x7f80_0000 < c.bits < 0x8000_0000 || c.bits
            > 0xff80_0000,
        confidence_column(c) matches Some(w) ==> w == c.widened(),
{
    crate::ieee::law_order_of_patterns_32(c, c);
}

}
