//! The background ingestor: queue, batches, the two phases and the worker.

use kremory::background::batch_tracker::{
    BatchEntry, BatchPhase2Complete, BatchProgress, BatchTracker, DeferredOutcome,
};
use kremory::background::deferred_pipeline::{
    ingestion_error, item_entered, process_item, request_namespace, DeferredNotice, DeferredReply,
    DeferredRun, DeferredStep, FailedPhase, GhostStep, IngestionErrorKind, ItemOutcome,
    Phase1Result,
};
use kremory::background::ingestor::{
    batched_request, send_request, ChannelReply, IngestQueue, SendParams,
};
use kremory::background::stage3::{Stage3Notice, Stage3Request, Stage3Write};
use kremory::background::verify_stage::{
    confirm_decisions, extraction_result_to_candidates, stage3_rows, Arm, EpisodeStatus,
    ExtractedEntity, FailureArm, ResolvedDecision, VerifyNotice, VerifyOutcome, VerifyReply,
    VerifyRequest, VerifyStage,
};
use kremory::background::worker::{
    checkpoint_row, resume_cursor, run_id, Worker, WorkerNotice, WorkerReply, WorkerRequest,
};
use kremory::background::{
    DeferredRequest, IngestErrorKind, IngestRequest, IngestSendError, IngestStatus,
    IngestorConfig, Timestamp,
};
use kremory::config::ContentType;
use kremory::error::Error;
use kremory::ieee::Binary32;
use std::time::Duration;

fn text(s: &str) -> String {
    s.to_owned()
}

fn now() -> Timestamp {
    Timestamp { secs: 1_700_000_000, nanos: 5 }
}

fn deferred(episode_id: i64, batch: Option<&str>) -> DeferredRequest {
    DeferredRequest {
        text: text("an episode"),
        reference_time: None,
        declared_reference_time: None,
        group_id: None,
        content_type: None,
        episode_id,
        ner_entity_names: vec![],
        batch_id: batch.map(text),
    }
}

fn request(body: &str) -> IngestRequest {
    send_request(text(body), SendParams::default())
}

// ── batches ──────────────────────────────────────────────────────────────────────────

#[test]
fn a_new_batch_has_one_episode_and_is_open() {
    for p in [BatchProgress::new(), BatchProgress::default()] {
        assert_eq!((p.total, p.succeeded, p.skipped, p.failed), (1, 0, 0, 0));
        assert!(!p.is_terminal());
    }
    let mut p = BatchProgress::new();
    p.total = 3;
    p.succeeded = 1;
    p.failed = 1;
    assert!(!p.is_terminal());
    p.skipped = 1;
    assert!(p.is_terminal());
}

#[test]
fn a_batch_closes_with_its_last_episode() {
    let mut t = BatchTracker::new();
    let id = text("b");
    t.register(&id);
    t.register(&id);
    assert_eq!(t.progress(&id).unwrap().total, 2);
    assert!(t.complete(Some(&id), DeferredOutcome::Succeeded).is_none());
    let event = t.complete(Some(&id), DeferredOutcome::Failed).unwrap();
    assert_eq!(event.batch_id, "b");
    assert_eq!((event.succeeded, event.skipped, event.failed), (1, 0, 1));
    assert_eq!(event.outcome_label(), "partial");
    assert!(t.progress(&id).is_none());
    assert!(t.complete(Some(&id), DeferredOutcome::Succeeded).is_none());
    assert!(t.complete(None, DeferredOutcome::Succeeded).is_none());
}

#[test]
fn batches_do_not_disturb_each_other() {
    let mut t = BatchTracker::new();
    t.register(&text("a"));
    t.register(&text("b"));
    t.register(&text("b"));
    assert!(t.complete(Some(&text("a")), DeferredOutcome::Succeeded).is_some());
    assert_eq!(t.progress(&text("b")).unwrap().total, 2);
}

#[test]
fn interrupt_reports_every_open_batch_once() {
    let mut t = BatchTracker::new();
    t.register(&text("a"));
    t.register(&text("a"));
    t.register(&text("b"));
    assert!(t.complete(Some(&text("a")), DeferredOutcome::Succeeded).is_none());
    let events = t.interrupt();
    let seen: Vec<(&str, usize)> =
        events.iter().map(|e| (e.batch_id.as_str(), e.succeeded)).collect();
    assert_eq!(seen, vec![("a", 1), ("b", 0)]);
    assert!(t.interrupt().is_empty());
}

#[test]
fn closing_events_carry_the_duration() {
    let entry = BatchEntry { batch_id: text("b"), progress: BatchProgress::new() };
    let event = entry.close(Duration::from_millis(1_234));
    assert_eq!(event.duration_ms, 1_234);
    let entry = BatchEntry { batch_id: text("b"), progress: BatchProgress::new() };
    let long = entry.close(Duration::MAX);
    assert_eq!(long.duration_ms, Duration::MAX.as_millis() as u64);
}

#[test]
fn outcome_labels() {
    let event = |succeeded: usize, failed: usize| BatchPhase2Complete {
        batch_id: text("b"),
        succeeded,
        skipped: 0,
        failed,
        duration_ms: 0,
    };
    assert_eq!(event(2, 0).outcome_label(), "success");
    assert_eq!(event(0, 2).outcome_label(), "all_failed");
    assert_eq!(event(1, 1).outcome_label(), "partial");
    assert_eq!(event(0, 0).outcome_label(), "success");
}

// ── queue ────────────────────────────────────────────────────────────────────────────

#[test]
fn requests_carry_what_was_sent() {
    let params = SendParams {
        reference_time: Some(now()),
        declared_reference_time: None,
        group_id: Some(text("g")),
        content_type: Some(ContentType::Message),
    };
    let r = send_request(text("hello"), params);
    assert_eq!(r.text, "hello");
    assert_eq!(r.reference_time, Some(now()));
    assert_eq!(r.group_id.as_deref(), Some("g"));
    assert_eq!(r.content_type, Some(ContentType::Message));
    assert_eq!(r.batch_id, None);
    let b = batched_request(text("hello"), text("b"));
    assert_eq!(b.batch_id.as_deref(), Some("b"));
    assert_eq!(b.group_id, None);
}

#[test]
fn queue_counts_before_the_channel_answers() {
    let mut q = IngestQueue::new(1);
    q.begin_enqueue(&request("a"));
    assert_eq!(q.queue_depth(), 1);
    assert_eq!(q.finish_enqueue(ChannelReply::Sent), Ok(()));
    q.begin_enqueue(&batched_request(text("b"), text("batch")));
    assert_eq!(q.finish_enqueue(ChannelReply::Full), Err(IngestSendError::Full(1)));
    assert_eq!(q.queue_depth(), 1);
    assert_eq!(q.tracker.progress(&text("batch")).unwrap().total, 1);
    q.begin_enqueue(&request("c"));
    assert_eq!(
        q.finish_enqueue(ChannelReply::Disconnected),
        Err(IngestSendError::Disconnected)
    );
    assert_eq!(q.dequeue(), 0);
}

#[test]
fn send_errors_render() {
    assert_eq!(IngestSendError::Full(64).message(), "ingest queue full (capacity=64)");
    assert_eq!(IngestSendError::Disconnected.message(), "ingest worker disconnected");
}

#[test]
fn ingestor_defaults() {
    let c: IngestorConfig<u8> = IngestorConfig::default();
    assert_eq!(c.channel_capacity, 64);
    assert_eq!(c.error_channel_capacity, 256);
    assert_eq!(c.thread_name, "rql-ingestor");
    assert!(c.deferred_extraction_enabled);
    assert_eq!(c.deferred_concurrency, 1);
    assert!(c.llm_rate_limit.is_none());
    assert!(c.sink.is_none());
    let c = c.with_sink(7);
    assert_eq!(c.sink, Some(7));
    assert_eq!(c.channel_capacity, 64);
}

// ── phases ───────────────────────────────────────────────────────────────────────────

#[test]
fn error_kinds_name_their_subsystem() {
    let m = || text("m");
    assert_eq!(IngestErrorKind::from(&Error::Database(m())), IngestErrorKind::Database);
    assert_eq!(IngestErrorKind::from(&Error::Extraction(m())), IngestErrorKind::Extraction);
    assert_eq!(IngestErrorKind::from(&Error::Resolution(m())), IngestErrorKind::Resolution);
    assert_eq!(IngestErrorKind::from(&Error::Llm(m())), IngestErrorKind::Llm);
    assert_eq!(IngestErrorKind::from(&Error::Embedding(m())), IngestErrorKind::Embedding);
    for e in [
        Error::Config(m()),
        Error::Search(m()),
        Error::Parse(m()),
        Error::Serialization(m()),
        Error::Other(m()),
        Error::EmbeddingDimZero,
    ] {
        assert_eq!(IngestErrorKind::from(&e), IngestErrorKind::Other);
    }
}

#[test]
fn first_phase_leads_to_the_second_or_ends() {
    let found = || Phase1Result { episode_id: 42, candidate_names: vec![text("Alice")] };
    match process_item(batched_request(text("t"), text("b")), true, Ok(found()), now()) {
        ItemOutcome::Deferred(d) => {
            assert_eq!((d.episode_id, d.text.as_str()), (42, "t"));
            assert_eq!(d.batch_id.as_deref(), Some("b"));
            assert_eq!(d.ner_entity_names, vec![text("Alice")]);
        }
        other => panic!("unexpected {other:?}"),
    }
    assert!(matches!(
        process_item(request("t"), false, Ok(found()), now()),
        ItemOutcome::Done
    ));
    assert!(matches!(item_entered(), IngestStatus::Pending));
}

#[test]
fn first_phase_failures_are_reported_with_a_preview() {
    let body = "ü".repeat(300);
    match process_item(request(&body), true, Err(Error::Extraction(text("bad"))), now()) {
        ItemOutcome::Failed { event, record } => {
            assert!(event.is_retryable);
            assert!(event.entity_or_edge_ref.is_none());
            match event.error_kind {
                IngestionErrorKind::ParseFailure { stage, detail } => {
                    assert_eq!((stage.as_str(), detail.as_str()), ("phase1_extraction", "bad"));
                }
                other => panic!("unexpected {other:?}"),
            }
            assert_eq!(record.text_preview, "ü".repeat(256));
            assert_eq!(record.message, "bad");
            assert_eq!(record.episode_id, 0);
            assert_eq!(record.kind, IngestErrorKind::Extraction);
            assert_eq!(record.failed_at, now());
        }
        other => panic!("unexpected {other:?}"),
    }
}

#[test]
fn providers_are_named_by_category() {
    let name = |e: Error| match ingestion_error(&e, FailedPhase::Deferred).error_kind {
        IngestionErrorKind::ProviderError { provider_name, .. } => provider_name,
        IngestionErrorKind::ParseFailure { stage, .. } => stage,
    };
    assert_eq!(name(Error::Llm(text("m"))), "llm");
    assert_eq!(name(Error::Embedding(text("m"))), "embedding");
    assert_eq!(name(Error::Database(text("m"))), "database");
    assert_eq!(name(Error::Search(text("m"))), "unknown");
    assert_eq!(name(Error::Resolution(text("m"))), "deferred_resolution");
    let kind = ingestion_error(&Error::Resolution(text("m")), FailedPhase::Deferred).error_kind;
    assert_eq!(kind.label(), "ParseFailure");
    let kind = ingestion_error(&Error::Llm(text("m")), FailedPhase::Deferred).error_kind;
    assert_eq!(kind.label(), "ProviderError");
    assert_eq!(FailedPhase::Phase1.label(), "phase1");
    assert_eq!(FailedPhase::VerifyStage.label(), "phase1_verify_fail");
    assert_eq!(FailedPhase::Deferred.label(), "phase2");
    assert_eq!(GhostStep::VerifyStage.label(), "verify_stage");
    assert_eq!(GhostStep::IngestDeferred.label(), "ingest_deferred");
}

#[test]
fn second_phase_succeeds_without_a_limit() {
    let mut run = DeferredRun::start(deferred(7, None), false);
    assert_eq!(run.step, DeferredStep::RunVerifyStage);
    assert!(run.advance(DeferredReply::Verified(Ok(2), now())).is_empty());
    assert_eq!(run.step, DeferredStep::ExtractFacts);
    let notices = run.advance(DeferredReply::Facts(Ok(3), now()));
    assert!(matches!(notices[..], [DeferredNotice::StageChange(IngestStatus::Complete)]));
    assert_eq!(run.step, DeferredStep::Finish(DeferredOutcome::Succeeded));
}

#[test]
fn second_phase_waits_for_the_limit() {
    let mut run = DeferredRun::start(deferred(7, None), true);
    run.advance(DeferredReply::Verified(Ok(2), now()));
    assert_eq!(run.step, DeferredStep::TakeToken);
    match &run.advance(DeferredReply::Token(false))[..] {
        [DeferredNotice::Throttled(ns)] => assert_eq!(ns, "default"),
        other => panic!("unexpected {other:?}"),
    }
    assert_eq!(run.step, DeferredStep::Wait);
    let notices = run.advance(DeferredReply::Waited);
    assert!(matches!(notices[..], [DeferredNotice::RetakeToken]));
    assert_eq!(run.step, DeferredStep::ExtractFacts);
    let mut run = DeferredRun::start(deferred(7, None), true);
    run.advance(DeferredReply::Verified(Ok(2), now()));
    assert!(run.advance(DeferredReply::Token(true)).is_empty());
    assert_eq!(run.step, DeferredStep::ExtractFacts);
}

#[test]
fn facts_are_extracted_even_when_the_entity_write_failed() {
    let mut run = DeferredRun::start(deferred(7, None), false);
    let notices = run.advance(DeferredReply::Verified(Err(Error::Llm(text("down"))), now()));
    assert_eq!(run.step, DeferredStep::ExtractFacts);
    assert!(matches!(notices[0], DeferredNotice::GhostEpisode(GhostStep::VerifyStage)));
    match &notices[1] {
        DeferredNotice::SendError(record) => {
            assert_eq!(record.message, "verify_stage: down");
            assert_eq!(record.episode_id, 7);
        }
        other => panic!("unexpected {other:?}"),
    }
    assert!(matches!(
        &notices[2],
        DeferredNotice::SinkError { phase: FailedPhase::VerifyStage, event } if !event.is_retryable
    ));
    run.advance(DeferredReply::Facts(Ok(1), now()));
    assert_eq!(run.step, DeferredStep::Finish(DeferredOutcome::Succeeded));
}

#[test]
fn a_failed_extraction_fails_the_second_phase() {
    let mut run = DeferredRun::start(deferred(7, None), false);
    run.advance(DeferredReply::Verified(Ok(0), now()));
    let notices = run.advance(DeferredReply::Facts(Err(Error::Database(text("gone"))), now()));
    assert_eq!(run.step, DeferredStep::Finish(DeferredOutcome::Failed));
    assert!(matches!(notices[0], DeferredNotice::GhostEpisode(GhostStep::IngestDeferred)));
    match &notices[1] {
        DeferredNotice::StageChange(IngestStatus::Failed(m)) => assert_eq!(m, "gone"),
        other => panic!("unexpected {other:?}"),
    }
    match &notices[3] {
        DeferredNotice::SendError(record) => assert_eq!(record.message, "deferred: gone"),
        other => panic!("unexpected {other:?}"),
    }
}

#[test]
fn namespaces_default() {
    assert_eq!(request_namespace(&deferred(1, None)), "default");
    let mut d = deferred(1, None);
    d.group_id = Some(text("g"));
    assert_eq!(request_namespace(&d), "g");
}

// ── entity write ─────────────────────────────────────────────────────────────────────

fn extracted(name: &str, confidence: Option<f32>) -> ExtractedEntity {
    ExtractedEntity {
        name: text(name),
        confidence: confidence.map(|c| Binary32::from_bits(c.to_bits())),
    }
}

#[test]
fn extractions_become_untyped_candidates() {
    let candidates =
        extraction_result_to_candidates(&vec![extracted("Alice", Some(0.9)), extracted("Bob", None)]);
    assert_eq!(candidates.len(), 2);
    assert_eq!(candidates[0].name, "Alice");
    assert_eq!(f32::from_bits(candidates[0].ner_confidence.to_bits()), 0.9);
    assert_eq!(f32::from_bits(candidates[1].ner_confidence.to_bits()), 0.0);
    assert_eq!(candidates[1].entity_type_id_raw, 0);
    assert_eq!(candidates[1].span, (0, 0));
}

#[test]
fn rows_follow_the_decisions() {
    let mut candidates = extraction_result_to_candidates(&vec![
        extracted("Alice \"Al\"\n", Some(0.5)),
        extracted("Bob", None),
    ]);
    candidates[0].entity_type_id_raw = 3;
    let ids = vec![text("alice al"), text("bob")];
    let rows = stage3_rows(
        &candidates,
        &ids,
        &vec![
            ResolvedDecision::Correct { candidate_idx: 1, new_type_id: 9 },
            ResolvedDecision::Confirm { candidate_idx: 0 },
            ResolvedDecision::Demote { candidate_idx: 0 },
        ],
    );
    let seen: Vec<(&str, i64)> =
        rows.iter().map(|r| (r.entity_id.as_str(), r.entity_type_id)).collect();
    assert_eq!(seen, vec![("bob", 9), ("alice al", 3), ("alice al", 0)]);
    assert_eq!(rows[1].properties, "{\"name\":\"Alice \\\"Al\\\"\\n\"}");
    assert_eq!(rows[1].name, "Alice \"Al\"\n");
}

#[test]
fn properties_read_back_as_json() {
    let name = "a\u{1}b\u{7f}\u{2028}\\\t\u{8}\u{c}\r é";
    let candidates = extraction_result_to_candidates(&vec![extracted(name, None)]);
    let rows = stage3_rows(&candidates, &vec![text("x")], &confirm_decisions(1));
    let value: serde_json::Value = serde_json::from_str(&rows[0].properties).unwrap();
    assert_eq!(value.get("name").unwrap().as_str(), Some(name));
    assert!(rows[0].properties.contains("\\u0001"));
    assert!(rows[0].properties.contains("\\b") && rows[0].properties.contains("\\f"));
}

#[test]
fn rows_are_stored_in_order() {
    let candidates = extraction_result_to_candidates(&vec![extracted("A", None), extracted("B", None)]);
    let rows = stage3_rows(&candidates, &vec![text("a"), text("b")], &confirm_decisions(2));
    let (mut write, first) = Stage3Write::start(rows);
    assert!(matches!(first, Stage3Request::InsertEntity(0)));
    let (n, r) = write.step(Ok(()));
    assert!(matches!((&n[..], r), ([Stage3Notice::EntityExtracted(0)], Stage3Request::InsertFullText(0))));
    let (n, r) = write.step(Ok(()));
    assert!(n.is_empty() && matches!(r, Stage3Request::InsertEdge(0)));
    // A failed edge does not stop the write.
    let (n, r) = write.step(Err(text("locked")));
    assert!(matches!((&n[..], r), ([Stage3Notice::Persisted(0)], Stage3Request::InsertEntity(1))));
    write.step(Ok(()));
    write.step(Ok(()));
    let (n, r) = write.step(Ok(()));
    assert!(matches!(n[..], [Stage3Notice::EdgeAdded(1), Stage3Notice::Persisted(1)]));
    assert!(matches!(r, Stage3Request::Finish(Ok(2))));
}

#[test]
fn a_failed_insert_ends_the_write() {
    let candidates = extraction_result_to_candidates(&vec![extracted("A", None)]);
    let rows = || stage3_rows(&candidates, &vec![text("a")], &confirm_decisions(1));
    let (mut write, _) = Stage3Write::start(rows());
    match write.step(Err(text("disk full"))).1 {
        Stage3Request::Finish(Err(e)) => {
            assert_eq!(e.message(), "stage3_write INSERT entity 'a': disk full");
        }
        other => panic!("unexpected {other:?}"),
    }
    let (mut write, _) = Stage3Write::start(rows());
    write.step(Ok(()));
    match write.step(Err(text("disk full"))).1 {
        Stage3Request::Finish(Err(e)) => {
            assert_eq!(e.message(), "stage3_write FTS INSERT entity 'a': disk full");
        }
        other => panic!("unexpected {other:?}"),
    }
    assert!(matches!(Stage3Write::start(vec![]).1, Stage3Request::Finish(Ok(0))));
}

#[test]
fn verified_episode_becomes_ready() {
    let (mut stage, first) = VerifyStage::start(true);
    assert!(matches!(
        first,
        VerifyRequest::SetStatus { from: EpisodeStatus::Pending, to: EpisodeStatus::Extracting }
    ));
    assert!(matches!(stage.step(VerifyReply::Status(Ok(()))).request, VerifyRequest::Extract));
    let step = stage.step(VerifyReply::Extraction(Ok(vec![extracted("A", None)])));
    assert!(matches!(step.request, VerifyRequest::VerifyBatch));
    assert_eq!(stage.candidates.len(), 1);
    let step = stage.step(VerifyReply::Verification(Ok(vec![ResolvedDecision::Demote {
        candidate_idx: 0,
    }])));
    match step.request {
        VerifyRequest::WriteEntities(d) => {
            assert_eq!(d, vec![ResolvedDecision::Demote { candidate_idx: 0 }]);
        }
        other => panic!("unexpected {other:?}"),
    }
    let step = stage.step(VerifyReply::Write(Ok(1)));
    assert!(matches!(
        step.notices[..],
        [VerifyNotice::EntitiesExtracted { arm: Arm::Gliner, count: 1 }]
    ));
    let step = stage.step(VerifyReply::Status(Ok(())));
    assert!(matches!(
        &step.notices[..],
        [
            VerifyNotice::StageChange { to: IngestStatus::EntitiesReady, cause: None, .. },
            VerifyNotice::Outcome { outcome: VerifyOutcome::Success, .. }
        ]
    ));
    assert!(matches!(step.request, VerifyRequest::Finish(Ok(1))));
}

#[test]
fn without_a_verifier_every_candidate_is_confirmed() {
    let (mut stage, _) = VerifyStage::start(false);
    stage.step(VerifyReply::Status(Ok(())));
    let step = stage.step(VerifyReply::Extraction(Ok(vec![extracted("A", None), extracted("B", None)])));
    match step.request {
        VerifyRequest::WriteEntities(d) => assert_eq!(d, confirm_decisions(2)),
        other => panic!("unexpected {other:?}"),
    }
}

#[test]
fn failures_mark_the_episode_before_the_error_leaves() {
    let cases: Vec<(usize, VerifyReply, EpisodeStatus, VerifyOutcome, FailureArm)> = vec![
        (
            0,
            VerifyReply::Status(Err(Error::Database(text("e")))),
            EpisodeStatus::Pending,
            VerifyOutcome::StatusTransitionFail,
            FailureArm::StatusTransitionFail,
        ),
        (
            1,
            VerifyReply::Extraction(Err(Error::Extraction(text("e")))),
            EpisodeStatus::Extracting,
            VerifyOutcome::GlinerFail,
            FailureArm::ExtractFail,
        ),
        (
            2,
            VerifyReply::Verification(Err(Error::Llm(text("e")))),
            EpisodeStatus::Extracting,
            VerifyOutcome::VerifyFail,
            FailureArm::VerifyFail,
        ),
        (
            3,
            VerifyReply::Write(Err(Error::Database(text("e")))),
            EpisodeStatus::Extracting,
            VerifyOutcome::WriteFail,
            FailureArm::WriteFail,
        ),
    ];
    for (at, reply, from_status, expected, arm) in cases {
        let (mut stage, _) = VerifyStage::start(true);
        if at > 0 {
            stage.step(VerifyReply::Status(Ok(())));
        }
        if at > 1 {
            stage.step(VerifyReply::Extraction(Ok(vec![])));
        }
        if at > 2 {
            stage.step(VerifyReply::Verification(Ok(vec![])));
        }
        let step = stage.step(reply);
        match &step.notices[..] {
            [
                VerifyNotice::Outcome { outcome, .. },
                VerifyNotice::MarkFailed { from },
                VerifyNotice::StageChange { to: IngestStatus::Failed(m), cause, .. },
            ] => {
                assert_eq!(*outcome, expected);
                assert_eq!(*from, from_status);
                assert_eq!(*cause, Some(arm));
                assert_eq!(m, "e");
            }
            other => panic!("unexpected {other:?}"),
        }
        assert!(matches!(step.request, VerifyRequest::Finish(Err(_))));
    }
}

#[test]
fn a_lost_final_status_still_reports_the_entities() {
    let (mut stage, _) = VerifyStage::start(false);
    stage.step(VerifyReply::Status(Ok(())));
    stage.step(VerifyReply::Extraction(Ok(vec![extracted("A", None)])));
    stage.step(VerifyReply::Write(Ok(1)));
    let step = stage.step(VerifyReply::Status(Err(Error::Database(text("busy")))));
    assert!(matches!(
        &step.notices[0],
        VerifyNotice::StageChange {
            to: IngestStatus::Failed(_),
            cause: Some(FailureArm::StatusTransitionFail),
            ..
        }
    ));
    assert!(matches!(step.request, VerifyRequest::Finish(Ok(1))));
}

#[test]
fn stage_labels() {
    assert_eq!(EpisodeStatus::Verified.label(), "Verified");
    assert_eq!(EpisodeStatus::Failed.label(), "Failed");
    assert_eq!(Arm::Gliner.label(), "gliner");
    assert_eq!(Arm::LlmExtract.label(), "llm_extract");
    assert_eq!(VerifyOutcome::Success.label(), "success");
    assert_ne!(FailureArm::ExtractFail.label(), FailureArm::VerifyFail.label());
}

// ── worker ───────────────────────────────────────────────────────────────────────────

#[test]
fn first_phase_work_has_priority() {
    let mut t = BatchTracker::new();
    let mut w = Worker::start();
    assert!(matches!(w.step(&mut t, WorkerReply::Stop(false)).1, WorkerRequest::Receive));
    let r = w.step(&mut t, WorkerReply::Received(request("a"))).1;
    assert!(matches!(r, WorkerRequest::ProcessItem(_)));
    let r = w.step(&mut t, WorkerReply::ItemDone(Some(deferred(1, None)))).1;
    assert!(matches!(r, WorkerRequest::ReadStop));
    w.step(&mut t, WorkerReply::Stop(false));
    let r = w.step(&mut t, WorkerReply::Received(request("b"))).1;
    assert!(matches!(r, WorkerRequest::ProcessItem(_)), "the queue waits while requests come");
    w.step(&mut t, WorkerReply::ItemDone(Some(deferred(2, None))));
    w.step(&mut t, WorkerReply::Stop(false));
    match w.step(&mut t, WorkerReply::Idle).1 {
        WorkerRequest::ProcessDeferred(d) => assert_eq!(d.episode_id, 1, "oldest first"),
        other => panic!("unexpected {other:?}"),
    }
}

#[test]
fn a_checkpoint_is_due_after_every_tenth_request() {
    let mut t = BatchTracker::new();
    let mut w = Worker::start();
    for episode in 1..=25 {
        w.step(&mut t, WorkerReply::Stop(false));
        w.step(&mut t, WorkerReply::Received(request("a")));
        w.step(&mut t, WorkerReply::ItemDone(Some(deferred(episode, None))));
        w.step(&mut t, WorkerReply::Stop(false));
        w.step(&mut t, WorkerReply::Idle);
        let (notices, _) = w.step(&mut t, WorkerReply::DeferredDone(DeferredOutcome::Succeeded));
        if episode % 10 == 0 {
            assert!(matches!(notices[..], [WorkerNotice::Checkpoint(e)] if e == episode));
        } else {
            assert!(notices.is_empty());
        }
    }
}

#[test]
fn a_closing_batch_is_announced_before_the_checkpoint() {
    let mut t = BatchTracker::new();
    t.register(&text("b"));
    let mut w = Worker::start();
    w.processed = 9;
    w.step(&mut t, WorkerReply::Stop(false));
    w.step(&mut t, WorkerReply::Received(request("a")));
    w.step(&mut t, WorkerReply::ItemDone(Some(deferred(5, Some("b")))));
    w.step(&mut t, WorkerReply::Stop(false));
    w.step(&mut t, WorkerReply::Idle);
    let (notices, _) = w.step(&mut t, WorkerReply::DeferredDone(DeferredOutcome::Failed));
    match &notices[..] {
        [WorkerNotice::BatchClosed(e), WorkerNotice::Checkpoint(5)] => {
            assert_eq!((e.batch_id.as_str(), e.failed), ("b", 1));
        }
        other => panic!("unexpected {other:?}"),
    }
}

#[test]
fn stop_runs_first_phases_and_interrupts_open_batches() {
    let mut t = BatchTracker::new();
    t.register(&text("b"));
    let mut w = Worker::start();
    assert!(matches!(w.step(&mut t, WorkerReply::Stop(true)).1, WorkerRequest::TryReceive));
    let r = w.step(&mut t, WorkerReply::Received(request("a"))).1;
    assert!(matches!(r, WorkerRequest::ProcessItem(_)));
    let r = w.step(&mut t, WorkerReply::ItemDone(Some(deferred(1, Some("b"))))).1;
    assert!(matches!(r, WorkerRequest::TryReceive));
    let (notices, r) = w.step(&mut t, WorkerReply::Empty);
    assert!(matches!(r, WorkerRequest::Exit));
    assert!(matches!(&notices[..], [WorkerNotice::BatchInterrupted(e)] if e.batch_id == "b"));
    assert!(t.progress(&text("b")).is_none());
}

#[test]
fn stop_while_draining_counts_what_is_given_up() {
    let mut t = BatchTracker::new();
    t.register(&text("b"));
    t.register(&text("b"));
    let mut w = Worker::start();
    w.step(&mut t, WorkerReply::Stop(false));
    w.step(&mut t, WorkerReply::Disconnected);
    for episode in 1..=2 {
        w.step(&mut t, WorkerReply::Received(request("a")));
        w.step(&mut t, WorkerReply::ItemDone(Some(deferred(episode, Some("b")))));
    }
    w.step(&mut t, WorkerReply::Empty);
    let (notices, r) = w.step(&mut t, WorkerReply::Stop(true));
    assert!(matches!(r, WorkerRequest::Exit));
    assert!(matches!(
        &notices[..],
        [WorkerNotice::Abandoned(2), WorkerNotice::BatchInterrupted(e)] if e.batch_id == "b"
    ));
}

#[test]
fn a_closed_channel_still_runs_the_second_phases() {
    let mut t = BatchTracker::new();
    let mut w = Worker::start();
    w.step(&mut t, WorkerReply::Stop(false));
    w.step(&mut t, WorkerReply::Received(request("a")));
    w.step(&mut t, WorkerReply::ItemDone(Some(deferred(1, None))));
    w.step(&mut t, WorkerReply::Stop(false));
    let r = w.step(&mut t, WorkerReply::Disconnected).1;
    assert!(matches!(r, WorkerRequest::TryReceive));
    assert!(matches!(w.step(&mut t, WorkerReply::Empty).1, WorkerRequest::ReadStop));
    let r = w.step(&mut t, WorkerReply::Stop(false)).1;
    assert!(matches!(r, WorkerRequest::ProcessDeferred(_)));
    let r = w.step(&mut t, WorkerReply::DeferredDone(DeferredOutcome::Succeeded)).1;
    assert!(matches!(r, WorkerRequest::Exit));
}

#[test]
fn checkpoints_name_run_and_episode() {
    assert_eq!(run_id(1_700_000_000_000_001), "verify_stage_1700000000000001");
    assert_eq!(run_id(-5), "verify_stage_-5");
    assert_eq!(run_id(i64::MIN), format!("verify_stage_{}", i64::MIN));
    let row = checkpoint_row(&text("r"), -12, now());
    assert_eq!(row.op_name, "verify_stage");
    assert_eq!((row.run_id.as_str(), row.cursor.as_str()), ("r", "-12"));
    assert_eq!(row.updated_at, 1_700_000_000);
    assert_eq!(resume_cursor(None), None);
    assert_eq!(resume_cursor(Some(String::new())), None);
    assert_eq!(resume_cursor(Some(text("9"))), Some(text("9")));
}
