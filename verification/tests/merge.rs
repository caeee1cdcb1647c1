//! The merge of two entities: what is captured before, the transaction, and chains.

use kremory::canonicalization::chain::{
    detect_merge_chain_extension, ChainKind, MergeLogRow, PriorMerge,
};
use kremory::canonicalization::executor::{
    reembed_label, MergePoint, MergeReply, MergeRequest, MergeRun, MergeStatement, StatementParam,
};
use kremory::canonicalization::snapshot::{snapshot_merge_pre_state, FactEndpoint};
use kremory::canonicalization::tables::{
    self_loop_fact_ids, EdgeRow, EntityRow, FactRow, MergeTables,
};
use kremory::error::Error;
use kremory::ieee::{Binary32, Binary64};

fn b32(v: f32) -> Binary32 {
    Binary32::from_bits(v.to_bits())
}

fn text(s: &str) -> String {
    s.to_owned()
}

fn entity(id: &str, group: &str) -> EntityRow {
    EntityRow {
        id: text(id),
        group_id: text(group),
        properties: Some(format!("{{\"name\":\"{id}\"}}")),
        embedding: Some(vec![0xfb, 0xff, 0x00, 0x10]),
        recorded_at: text("2026-01-01T00:00:00Z"),
        updated_at: None,
        access_count: 3,
        entity_type_id: 4,
        entity_type_source: Some(text("gliner")),
        entity_type_assigned_at: None,
        ner_confidence: Some(Binary64::from_bits(0.5_f64.to_bits())),
    }
}

fn fact(id: i64, subject: &str, object: Option<&str>, group: &str, expired: bool) -> FactRow {
    FactRow {
        id,
        subject_id: text(subject),
        subject_group_id: text(group),
        object_id: object.map(text),
        object_group_id: object.map(|_| text(group)),
        corroboration_inert: 0,
        expired,
    }
}

fn edge(episode_id: i64, entity_id: &str, group: &str) -> EdgeRow {
    EdgeRow {
        episode_id,
        entity_id: text(entity_id),
        entity_group_id: text(group),
        role: text("mention"),
        recorded_at: text("2026-01-02T00:00:00Z"),
    }
}

fn tables() -> MergeTables {
    MergeTables {
        entities: vec![entity("l", "g"), entity("k", "g"), entity("l", "other")],
        facts: vec![
            fact(1, "l", Some("x"), "g", false),
            fact(2, "x", Some("l"), "g", true),
            fact(3, "l", Some("k"), "g", false),
            fact(4, "k", Some("l"), "g", true),
            fact(5, "k", Some("k"), "g", false),
            fact(6, "l", Some("l"), "g", false),
            fact(7, "l", Some("k"), "other", false),
            fact(8, "l", None, "g", false),
        ],
        edges: vec![edge(10, "l", "g"), edge(11, "l", "g"), edge(10, "k", "g"), edge(11, "l", "other")],
    }
}

#[test]
fn doomed_facts_are_live_and_run_between_the_two() {
    assert_eq!(
        self_loop_fact_ids(&tables().facts, &text("l"), &text("k"), &text("g")),
        vec![3, 6]
    );
    assert!(self_loop_fact_ids(&vec![], &text("l"), &text("k"), &text("g")).is_empty());
}

#[test]
fn snapshot_captures_what_the_merge_destroys() {
    let s = snapshot_merge_pre_state(
        &tables(),
        &text("l"),
        &text("k"),
        &text("g"),
        "l5_canonicalize",
        Some(b32(0.9)),
        true,
    )
    .unwrap();
    assert_eq!(s.group_id, "g");
    assert_eq!((s.inputs.pair_lo.as_str(), s.inputs.pair_hi.as_str()), ("k", "l"));
    assert_eq!((s.inputs.keeper.as_str(), s.inputs.loser.as_str()), ("k", "l"));
    assert_eq!(s.inputs.site, "l5_canonicalize");
    assert_eq!(s.inputs.cosine, Some(b32(0.9)));
    assert!(s.inputs.structural_signal);
    let p = s.pre_state;
    assert_eq!(p.loser_entity_row.id, "l");
    assert_eq!(p.loser_entity_row.embedding_b64.as_deref(), Some("+/8AEA=="));
    assert_eq!(p.loser_entity_row.access_count, 3);
    assert_eq!(p.loser_entity_row.entity_type_source.as_deref(), Some("gliner"));
    assert_eq!((p.keeper_pre.id.as_str(), p.keeper_pre.access_count), ("k", 3));
    let repointed: Vec<(i64, bool)> = p
        .repointed_facts
        .iter()
        .map(|f| (f.fact_id, matches!(f.endpoint, FactEndpoint::Subject)))
        .collect();
    assert_eq!(
        repointed,
        vec![(1, true), (3, true), (6, true), (8, true), (2, false), (4, false), (6, false)]
    );
    let edges: Vec<(i64, bool)> =
        p.episodic_edges.iter().map(|e| (e.episode_id, e.collided)).collect();
    assert_eq!(edges, vec![(10, true), (11, false)]);
    assert_eq!(p.self_loops_expired, vec![3, 6]);
}

#[test]
fn snapshot_of_an_empty_vector_is_an_empty_text() {
    let mut t = tables();
    t.entities[0].embedding = Some(vec![]);
    let s = |t: &MergeTables| {
        snapshot_merge_pre_state(t, &text("l"), &text("k"), &text("g"), "s", None, false).unwrap()
    };
    assert_eq!(s(&t).pre_state.loser_entity_row.embedding_b64.as_deref(), Some(""));
    t.entities[0].embedding = None;
    assert_eq!(s(&t).pre_state.loser_entity_row.embedding_b64, None);
    for (bytes, expected) in
        [(vec![0x66], "Zg=="), (vec![0x66, 0x6f], "Zm8="), (vec![0x66, 0x6f, 0x6f], "Zm9v")]
    {
        t.entities[0].embedding = Some(bytes);
        assert_eq!(s(&t).pre_state.loser_entity_row.embedding_b64.as_deref(), Some(expected));
    }
}

#[test]
fn snapshot_refuses_a_merge_with_a_missing_entity() {
    let missing = |loser: &str, keeper: &str| {
        snapshot_merge_pre_state(
            &tables(),
            &text(loser),
            &text(keeper),
            &text("g"),
            "s",
            None,
            false,
        )
        .unwrap_err()
        .message()
    };
    assert_eq!(
        missing("nobody", "nobody else"),
        "reversible-mutations snapshot: loser entity `nobody` not found in namespace `g` \u{2014} \
         cannot capture a reversible pre-state for this merge"
    );
    assert!(missing("l", "nobody").contains("keeper entity `nobody` not found"));
}

/// Answers every request with success and returns the writes in order.
fn run_through(run: &mut MergeRun, access_count: i64, doomed: usize) -> (Vec<MergeStatement>, bool) {
    let mut writes = Vec::new();
    let mut request = MergeRequest::Begin;
    loop {
        let reply = match &request {
            MergeRequest::Begin => MergeReply::Began(Ok(true)),
            MergeRequest::ReadLoser => {
                MergeReply::Loser { access_count, confidence: Some(b32(0.5)) }
            }
            MergeRequest::Capture => MergeReply::Captured(Ok(doomed)),
            MergeRequest::Execute(s) => {
                writes.push(*s);
                MergeReply::Executed(Ok(()))
            }
            MergeRequest::ReadKeeperConfidence => {
                MergeReply::KeeperConfidence { confidence: Some(b32(0.5)), combined: b32(0.75) }
            }
            MergeRequest::Commit => MergeReply::Committed(Ok(())),
            MergeRequest::Rollback => MergeReply::RolledBack,
            MergeRequest::AfterCommit { embed } => {
                MergeReply::Embedded(if *embed { Some(true) } else { None })
            }
            MergeRequest::PersistEmbedding => MergeReply::Persisted(true),
            MergeRequest::Finish(r) => return (writes, r.is_ok()),
        };
        request = run.step(reply);
    }
}

#[test]
fn a_merge_runs_its_whole_script() {
    let mut run = MergeRun::start(true, true);
    let (writes, ok) = run_through(&mut run, 2, 2);
    assert!(ok);
    assert_eq!(
        writes,
        vec![
            MergeStatement::RepointSubjects,
            MergeStatement::RepointObjects,
            MergeStatement::RepointEdges,
            MergeStatement::DropLoserEdges,
            MergeStatement::ExpireFact(0),
            MergeStatement::ExpireFact(1),
            MergeStatement::AddAccess,
            MergeStatement::SetConfidence(b32(0.75)),
            MergeStatement::DeleteFullText,
            MergeStatement::DeleteEntity,
            MergeStatement::InsertAudit,
        ]
    );
    let mut bare = MergeRun::start(false, false);
    let (writes, _) = run_through(&mut bare, 0, 0);
    assert!(!writes.contains(&MergeStatement::AddAccess));
    assert!(!writes.contains(&MergeStatement::InsertAudit));
    assert_eq!(bare.point, MergePoint::Finished);
}

#[test]
fn without_any_confidence_none_is_written() {
    let mut run = MergeRun::start(false, false);
    run.step(MergeReply::Began(Ok(false)));
    run.step(MergeReply::Loser { access_count: 0, confidence: None });
    run.step(MergeReply::Captured(Ok(0)));
    for _ in 0..4 {
        run.step(MergeReply::Executed(Ok(())));
    }
    assert_eq!(run.point, MergePoint::ReadKeeperConfidence);
    let next = run.step(MergeReply::KeeperConfidence { confidence: None, combined: b32(0.0) });
    assert!(matches!(next, MergeRequest::Execute(MergeStatement::DeleteFullText)));
    run.step(MergeReply::Executed(Ok(())));
    assert!(matches!(run.step(MergeReply::Executed(Ok(()))), MergeRequest::Commit));
    // Inside an outer transaction the keeper's vector is left alone.
    assert!(matches!(run.step(MergeReply::Committed(Ok(()))), MergeRequest::Finish(Ok(()))));
}

#[test]
fn the_first_failure_rolls_back_and_is_reported() {
    let mut run = MergeRun::start(true, true);
    run.step(MergeReply::Began(Ok(true)));
    run.step(MergeReply::Loser { access_count: 0, confidence: None });
    run.step(MergeReply::Captured(Ok(0)));
    let r = run.step(MergeReply::Executed(Err(Error::Database(text("locked")))));
    assert!(matches!(r, MergeRequest::Rollback));
    match run.step(MergeReply::RolledBack) {
        MergeRequest::Finish(Err(e)) => assert_eq!(e.message(), "locked"),
        other => panic!("unexpected {other:?}"),
    }
    let mut run = MergeRun::start(true, true);
    run.step(MergeReply::Began(Ok(true)));
    run.step(MergeReply::Loser { access_count: 0, confidence: None });
    let r = run.step(MergeReply::Captured(Err(Error::Other(text("gone")))));
    assert!(matches!(r, MergeRequest::Rollback));
}

#[test]
fn a_transaction_that_does_not_open_ends_the_merge() {
    let mut run = MergeRun::start(false, false);
    let r = run.step(MergeReply::Began(Err(Error::Database(text("busy")))));
    assert!(matches!(r, MergeRequest::Finish(Err(Error::Database(_)))));
}

#[test]
fn a_failed_refresh_does_not_undo_the_merge() {
    for reply in [Some(false), None] {
        let mut run = MergeRun::start(false, true);
        run.point = MergePoint::AfterCommit;
        assert!(matches!(run.step(MergeReply::Embedded(reply)), MergeRequest::Finish(Ok(()))));
    }
    let mut run = MergeRun::start(false, true);
    run.point = MergePoint::AfterCommit;
    assert!(matches!(
        run.step(MergeReply::Embedded(Some(true))),
        MergeRequest::PersistEmbedding
    ));
    assert!(matches!(run.step(MergeReply::Persisted(false)), MergeRequest::Finish(Ok(()))));
    assert_eq!(reembed_label(false, false), "embed_failed");
    assert_eq!(reembed_label(true, false), "persist_failed");
    assert_eq!(reembed_label(true, true), "success");
}

#[test]
fn statements_name_their_parameters_in_order() {
    for statement in [
        MergeStatement::RepointSubjects,
        MergeStatement::RepointObjects,
        MergeStatement::RepointEdges,
        MergeStatement::DropLoserEdges,
        MergeStatement::ExpireFact(0),
        MergeStatement::AddAccess,
        MergeStatement::SetConfidence(b32(0.5)),
        MergeStatement::DeleteFullText,
        MergeStatement::DeleteEntity,
    ] {
        let params = statement.params();
        assert!(statement.sql().contains(&format!("?{}", params.len())));
        assert!(!statement.sql().contains(&format!("?{}", params.len() + 1)));
    }
    assert_eq!(
        MergeStatement::ExpireFact(3).params(),
        vec![StatementParam::Now, StatementParam::DoomedFact(3)]
    );
    assert!(MergeStatement::InsertAudit.sql().contains("?11"));
    assert_eq!(
        MergeStatement::SetConfidence(b32(0.75)).params()[0],
        StatementParam::Confidence(Some(Binary64::from_bits(0.75_f64.to_bits())))
    );
    assert_eq!(
        MergeStatement::SetConfidence(b32(f32::NAN)).params()[0],
        StatementParam::Confidence(None)
    );
}

fn merged(group: &str, loser: &str, keeper: &str, undone: bool) -> MergeLogRow {
    MergeLogRow {
        group_id: text(group),
        undone,
        prior: Some(PriorMerge { keeper: text(keeper), loser: text(loser) }),
    }
}

fn chain(log: &Vec<MergeLogRow>, loser: &str, keeper: &str) -> Option<(String, ChainKind)> {
    detect_merge_chain_extension(log, &text("g"), &text(loser), &text(keeper))
}

#[test]
fn chains_are_detected_at_both_ends() {
    let log = vec![merged("g", "a", "b", false)];
    assert_eq!(chain(&log, "b", "c"), Some((text("a"), ChainKind::LoserIsPriorSurvivor)));
    assert_eq!(chain(&log, "c", "a"), Some((text("b"), ChainKind::KeeperIsPriorVictim)));
    assert_eq!(chain(&log, "c", "d"), None);
    assert_eq!(chain(&log, "c", "b"), None);
    assert_eq!(ChainKind::LoserIsPriorSurvivor.label(), "loser_is_prior_survivor");
    assert_eq!(ChainKind::KeeperIsPriorVictim.label(), "keeper_is_prior_victim");
}

#[test]
fn chains_stay_in_their_namespace_and_skip_undone_merges() {
    let unreadable = MergeLogRow { group_id: text("g"), undone: false, prior: None };
    let log = vec![
        merged("other", "a", "b", false),
        merged("g", "z", "b", true),
        unreadable,
        merged("g", "y", "b", false),
    ];
    assert_eq!(chain(&log, "b", "c"), Some((text("y"), ChainKind::LoserIsPriorSurvivor)));
    assert_eq!(chain(&log[..2].to_vec(), "b", "c"), None);
}

#[test]
fn a_log_read_row_by_row_shows_the_same_chain() {
    let log = vec![
        merged("g", "x", "y", false),
        merged("g", "a", "b", false),
        merged("g", "c", "b", false),
    ];
    let whole = chain(&log, "b", "z");
    let first = log.iter().find_map(|row| chain(&vec![row.clone()], "b", "z"));
    assert_eq!(whole, Some((text("a"), ChainKind::LoserIsPriorSurvivor)));
    assert_eq!(first, whole);
}

/// The log row that a merge of `loser` into `keeper` records.
fn recorded(group: &str, loser: &str, keeper: &str) -> MergeLogRow {
    let tables = MergeTables {
        entities: vec![entity(loser, group), entity(keeper, group)],
        facts: vec![],
        edges: vec![],
    };
    let s = snapshot_merge_pre_state(
        &tables,
        &text(loser),
        &text(keeper),
        &text(group),
        "canonicalize",
        None,
        false,
    )
    .unwrap();
    MergeLogRow {
        group_id: s.group_id,
        undone: false,
        prior: Some(PriorMerge { keeper: s.inputs.keeper, loser: s.inputs.loser }),
    }
}

#[test]
fn chain_detector_fires_when_loser_previously_absorbed() {
    let log = vec![recorded("g_chain", "melanie", "caroline")];
    let hit = detect_merge_chain_extension(
        &log,
        &text("g_chain"),
        &text("caroline"),
        &text("loved ones"),
    );
    let (prior, kind) = hit.expect("chain extension must be detected");
    assert_eq!(kind.label(), "loser_is_prior_survivor");
    assert_eq!(prior, "melanie", "must name the identity being moved twice");
}

#[test]
fn chain_detector_fires_when_keeper_was_previously_absorbed() {
    let log = vec![recorded("g_victim", "a", "b")];
    let hit = detect_merge_chain_extension(&log, &text("g_victim"), &text("c"), &text("a"));
    let (prior, kind) = hit.expect("keeper-is-prior-victim must be detected");
    assert_eq!(kind.label(), "keeper_is_prior_victim");
    assert_eq!(prior, "b");
}

#[test]
fn chain_detector_silent_on_independent_merges() {
    let log = vec![recorded("g_indep", "a", "b")];
    assert!(
        detect_merge_chain_extension(&log, &text("g_indep"), &text("c"), &text("d")).is_none(),
        "independent merge must NOT be reported as a chain extension"
    );
}

#[test]
fn chain_detector_is_namespace_scoped() {
    let log = vec![recorded("ns_one", "a", "b")];
    assert!(
        detect_merge_chain_extension(&log, &text("ns_two"), &text("b"), &text("c")).is_none(),
        "a merge in ANOTHER namespace must not count as a chain here"
    );
}
