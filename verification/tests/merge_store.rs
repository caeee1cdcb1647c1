//! Merges run against a database: the statements do what the model of them says.

use kremory::canonicalization::executor::{
    MergeReply, MergeRequest, MergeRun, MergeStatement, StatementParam,
};
use kremory::canonicalization::tables::{self_loop_fact_ids, FactRow};
use kremory::error::Error;
use kremory::ieee::Binary32;
use libsql::{Connection, Value};

const SCHEMA: &str = "
CREATE TABLE entities (id TEXT, group_id TEXT, access_count INTEGER, ner_confidence REAL,
    PRIMARY KEY (id, group_id));
CREATE TABLE entities_fts (entity_id TEXT);
CREATE TABLE facts (id INTEGER PRIMARY KEY, subject_id TEXT, subject_group_id TEXT,
    object_id TEXT, object_group_id TEXT, corroboration_inert INTEGER, expired_at TEXT);
CREATE TABLE episodic_edges (episode_id INTEGER, entity_id TEXT, entity_group_id TEXT,
    PRIMARY KEY (episode_id, entity_id, entity_group_id));
CREATE TABLE identity_verdict_audit (site TEXT, group_id TEXT, candidate_a TEXT,
    candidate_b TEXT, cosine REAL, structural_signal INTEGER, llm_is_same INTEGER,
    llm_confidence REAL, llm_reasoning TEXT, decision TEXT, run_id TEXT);
INSERT INTO entities VALUES ('l', 'g', 3, 0.5), ('k', 'g', 7, 0.5), ('l', 'other', 1, NULL);
INSERT INTO entities_fts VALUES ('l'), ('k');
INSERT INTO facts VALUES
    (1, 'l', 'g', 'x', 'g', 0, NULL),
    (2, 'x', 'g', 'l', 'g', 0, NULL),
    (3, 'l', 'g', 'k', 'g', 0, NULL),
    (4, 'k', 'g', 'k', 'g', 0, NULL),
    (5, 'l', 'other', 'x', 'other', 0, NULL);
INSERT INTO episodic_edges VALUES (10, 'l', 'g'), (10, 'k', 'g'), (11, 'l', 'g'), (11, 'l', 'other');
";

fn db_error(e: libsql::Error) -> Error {
    Error::Database(e.to_string())
}

async fn texts(conn: &Connection, sql: &str) -> Vec<String> {
    let mut rows = conn.query(sql, ()).await.unwrap();
    let mut out = Vec::new();
    while let Some(row) = rows.next().await.unwrap() {
        out.push(row.get::<String>(0).unwrap());
    }
    out
}

async fn doomed_facts(conn: &Connection) -> Vec<i64> {
    let mut rows = conn
        .query(
            "SELECT id, subject_id, subject_group_id, object_id, object_group_id, \
             corroboration_inert, expired_at IS NOT NULL FROM facts ORDER BY id",
            (),
        )
        .await
        .unwrap();
    let mut facts = Vec::new();
    while let Some(row) = rows.next().await.unwrap() {
        facts.push(FactRow {
            id: row.get::<i64>(0).unwrap(),
            subject_id: row.get::<String>(1).unwrap(),
            subject_group_id: row.get::<String>(2).unwrap(),
            object_id: row.get::<Option<String>>(3).unwrap(),
            object_group_id: row.get::<Option<String>>(4).unwrap(),
            corroboration_inert: row.get::<i64>(5).unwrap(),
            expired: row.get::<i64>(6).unwrap() != 0,
        });
    }
    self_loop_fact_ids(&facts, &"l".to_owned(), &"k".to_owned(), &"g".to_owned())
}

fn value(param: StatementParam, doomed: &[i64], access_count: i64) -> Vec<Value> {
    match param {
        StatementParam::Keeper => vec![Value::Text("k".to_owned())],
        StatementParam::Loser => vec![Value::Text("l".to_owned())],
        StatementParam::Group => vec![Value::Text("g".to_owned())],
        StatementParam::Now => vec![Value::Text("2026-01-01".to_owned())],
        StatementParam::DoomedFact(i) => vec![Value::Integer(doomed[i])],
        StatementParam::AccessCount => vec![Value::Integer(access_count)],
        StatementParam::Confidence(c) => {
            vec![c.map_or(Value::Null, |v| Value::Real(f64::from_bits(v.to_bits())))]
        }
        StatementParam::AuditColumns => {
            let mut columns = vec![Value::Text("site".to_owned()); 10];
            columns.push(Value::Text("run".to_owned()));
            columns
        }
    }
}

/// Merges `l` into `k`; the write `fail_at` is answered with a failure.
async fn merge(conn: &Connection, fail_at: Option<MergeStatement>) -> Result<(), Error> {
    let mut run = MergeRun::start(true, false);
    let mut request = MergeRequest::Begin;
    let mut doomed: Vec<i64> = Vec::new();
    loop {
        let reply = match request {
            MergeRequest::Begin => {
                MergeReply::Began(conn.execute("BEGIN IMMEDIATE", ()).await.map(|_| true).map_err(db_error))
            }
            MergeRequest::ReadLoser => MergeReply::Loser {
                access_count: 3,
                confidence: Some(Binary32::from_bits(0.5_f32.to_bits())),
            },
            MergeRequest::Capture => {
                doomed = doomed_facts(conn).await;
                MergeReply::Captured(Ok(doomed.len()))
            }
            MergeRequest::Execute(s) => {
                if Some(s) == fail_at {
                    MergeReply::Executed(Err(Error::Database("disk full".to_owned())))
                } else {
                    let mut values: Vec<Value> = Vec::new();
                    for p in s.params() {
                        values.extend(value(p, &doomed, run.access_count));
                    }
                    let done = conn.execute(s.sql(), values).await;
                    MergeReply::Executed(done.map(|_| ()).map_err(db_error))
                }
            }
            MergeRequest::ReadKeeperConfidence => MergeReply::KeeperConfidence {
                confidence: Some(Binary32::from_bits(0.5_f32.to_bits())),
                combined: Binary32::from_bits(0.75_f32.to_bits()),
            },
            MergeRequest::Commit => {
                MergeReply::Committed(conn.execute("COMMIT", ()).await.map(|_| ()).map_err(db_error))
            }
            MergeRequest::Rollback => {
                let _ = conn.execute("ROLLBACK", ()).await;
                MergeReply::RolledBack
            }
            MergeRequest::AfterCommit { .. } => MergeReply::Embedded(None),
            MergeRequest::PersistEmbedding => MergeReply::Persisted(true),
            MergeRequest::Finish(result) => return result,
        };
        request = run.step(reply);
    }
}

fn with_store(fail_at: Option<MergeStatement>) -> (Result<(), Error>, Vec<Vec<String>>) {
    let rt = tokio::runtime::Builder::new_current_thread().enable_all().build().unwrap();
    rt.block_on(async {
        let db = libsql::Builder::new_local(":memory:").build().await.unwrap();
        let conn = db.connect().unwrap();
        conn.execute_batch(SCHEMA).await.unwrap();
        let result = merge(&conn, fail_at).await;
        let state = vec![
            texts(
                &conn,
                "SELECT id || '/' || group_id || ' ' || access_count || ' ' || \
                 coalesce(ner_confidence, '-') FROM entities ORDER BY group_id, id",
            )
            .await,
            texts(
                &conn,
                "SELECT id || ' ' || subject_id || ' ' || object_id || ' ' || \
                 corroboration_inert || CASE WHEN expired_at IS NULL THEN '' ELSE ' expired' END \
                 FROM facts ORDER BY id",
            )
            .await,
            texts(
                &conn,
                "SELECT episode_id || ' ' || entity_id || '/' || entity_group_id \
                 FROM episodic_edges ORDER BY 1",
            )
            .await,
            texts(&conn, "SELECT entity_id FROM entities_fts ORDER BY 1").await,
            texts(&conn, "SELECT run_id FROM identity_verdict_audit").await,
        ];
        (result, state)
    })
}

#[test]
fn a_merge_moves_everything_to_the_keeper() {
    let (result, state) = with_store(None);
    assert!(result.is_ok());
    assert_eq!(state[0], vec!["k/g 10 0.75", "l/other 1 -"]);
    assert_eq!(
        state[1],
        vec!["1 k x 1", "2 x k 1", "3 k k 1 expired", "4 k k 0", "5 l x 0"]
    );
    assert_eq!(state[2], vec!["10 k/g", "11 k/g", "11 l/other"]);
    assert_eq!(state[3], vec!["k"]);
    assert_eq!(state[4], vec!["run"]);
}

#[test]
fn a_failing_statement_leaves_the_store_as_it_was() {
    for fail_at in [
        MergeStatement::RepointSubjects,
        MergeStatement::DropLoserEdges,
        MergeStatement::ExpireFact(0),
        MergeStatement::DeleteEntity,
        MergeStatement::InsertAudit,
    ] {
        let (result, state) = with_store(Some(fail_at));
        assert_eq!(result.unwrap_err().message(), "disk full");
        assert_eq!(state[0], vec!["k/g 7 0.5", "l/g 3 0.5", "l/other 1 -"]);
        assert_eq!(state[1], vec!["1 l x 0", "2 x l 0", "3 l k 0", "4 k k 0", "5 l x 0"]);
        assert_eq!(state[2], vec!["10 k/g", "10 l/g", "11 l/g", "11 l/other"]);
        assert_eq!(state[3], vec!["k", "l"]);
        assert!(state[4].is_empty());
    }
}
