//! What a merge does to the whole store: the graph's tables, and beside them the full-text
//! index, the audit rows and the mutation log.

use vstd::prelude::*;
use crate::canonicalization::adjudicated::IdentityVerdictAuditRow;
use crate::canonicalization::effects::{
    law_script_merges, merged_tables, tables_after, tables_after_all, MergeContext,
};
use crate::canonicalization::executor::{merge_script, MergeStatement};
use crate::canonicalization::snapshot::MergeSnapshot;
use crate::canonicalization::tables::TablesView;
use crate::ieee::Binary32;

verus! {

/// What the store holds.
#[verifier::ext_equal]
pub struct StoreView {
    pub tables: TablesView,
    /// The entity id of each full-text row. The index knows no namespaces.
    pub full_text: Seq<Seq<char>>,
    /// The audit rows, oldest first.
    pub audit: Seq<IdentityVerdictAuditRow>,
    /// The recorded merges, oldest first.
    pub log: Seq<MergeSnapshot>,
}

/// The full-text rows without those of entity `id`.
pub open spec fn full_text_without(rows: Seq<Seq<char>>, id: Seq<char>) -> Seq<Seq<char>>
    decreases rows.len(),
{
    if rows.len() == 0 {
        seq![]
    } else {
        let before = full_text_without(rows.drop_last(), id);
        if rows.last() == id {
            before
        } else {
            before.push(rows.last())
        }
    }
}

/// The store after the pre-state of a merge was recorded.
pub open spec fn store_recorded(s: StoreView, snapshot: MergeSnapshot) -> StoreView {
    StoreView { log: s.log.push(snapshot), ..s }
}

/// The store after a statement; `row` is the audit row of the merge.
pub open spec fn store_after(
    s: StoreView,
    statement: MergeStatement,
    c: MergeContext,
    row: IdentityVerdictAuditRow,
) -> StoreView {
    StoreView {
        tables: tables_after(s.tables, statement, c),
        full_text: if statement == MergeStatement::DeleteFullText {
            full_text_without(s.full_text, c.m.loser)
        } else {
            s.full_text
        },
        audit: if statement == MergeStatement::InsertAudit {
            s.audit.push(row)
        } else {
            s.audit
        },
        log: s.log,
    }
}

/// The store after a run of statements.
pub open spec fn store_after_all(
    s: StoreView,
    script: Seq<MergeStatement>,
    c: MergeContext,
    row: IdentityVerdictAuditRow,
) -> StoreView
    decreases script.len(),
{
    if script.len() == 0 {
        s
    } else {
        store_after(store_after_all(s, script.drop_last(), c, row), script.last(), c, row)
    }
}

/// The tables fare as they do on their own, and the log is left alone.
proof fn tables_fare_alone(
    s: StoreView,
    script: Seq<MergeStatement>,
    c: MergeContext,
    row: IdentityVerdictAuditRow,
)
    ensures
        store_after_all(s, script, c, row).tables == tables_after_all(s.tables, script, c),
        store_after_all(s, script, c, row).log == s.log,
    decreases script.len(),
{
    if script.len() > 0 {
        tables_fare_alone(s, script.drop_last(), c, row);
    }
}

/// A run without their statements leaves the index and the audit rows alone.
proof fn quiet_run(
    s: StoreView,
    script: Seq<MergeStatement>,
    c: MergeContext,
    row: IdentityVerdictAuditRow,
)
    requires
        forall|i: int|
            0 <= i < script.len() ==> #[trigger] script[i] != MergeStatement::DeleteFullText
                && script[i] != MergeStatement::InsertAudit,
    ensures
        store_after_all(s, script, c, row).full_text == s.full_text,
        store_after_all(s, script, c, row).audit == s.audit,
    decreases script.len(),
{
    if script.len() > 0 {
        let front = script.drop_last();
        assert forall|i: int| 0 <= i < front.len() implies #[trigger] front[i]
            != MergeStatement::DeleteFullText && front[i] != MergeStatement::InsertAudit by {
            assert(front[i] == script[i]);
        }
        quiet_run(s, front, c, row);
        assert(script[script.len() - 1] == script.last());
    }
}

/// A run behind a run.
proof fn run_behind(
    s: StoreView,
    first: Seq<MergeStatement>,
    last: MergeStatement,
    c: MergeContext,
    row: IdentityVerdictAuditRow,
)
    ensures
        store_after_all(s, first.push(last), c, row) == store_after(
            store_after_all(s, first, c, row),
            last,
            c,
            row,
        ),
{
    assert(first.push(last).drop_last() =~= first);
}

/// A whole merge, from the recording of its pre-state to its last write: the tables are
/// merged, no full-text row of the loser is left and every other one is, the audit row is
/// there exactly when the merge has one, and the merge stands in the log.
pub proof fn law_merge_leaves_its_records(
    s: StoreView,
    c: MergeContext,
    access_count: i64,
    confidence: Option<Binary32>,
    audited: bool,
    row: IdentityVerdictAuditRow,
    snapshot: MergeSnapshot,
)
    requires
        c.doomed.len() <= usize::MAX,
        c.access_count == access_count,
    ensures
        store_after_all(
            store_recorded(s, snapshot),
            merge_script(c.doomed.len() as usize, access_count, confidence, audited),
            c,
            row,
        ) == (StoreView {
            tables: merged_tables(s.tables, c, confidence),
            full_text: full_text_without(s.full_text, c.m.loser),
            audit: if audited {
                s.audit.push(row)
            } else {
                s.audit
            },
            log: s.log.push(snapshot),
        }),
{
    let n = c.doomed.len();
    let s0 = store_recorded(s, snapshot);
    let script = merge_script(n as usize, access_count, confidence, audited);
    let bare = merge_script(n as usize, access_count, confidence, false);
    let upto = (bare.len() - 2) as int;
    let quiet = bare.take(upto);
    assert(bare[upto] == MergeStatement::DeleteFullText);
    assert(bare[upto + 1] == MergeStatement::DeleteEntity);
    assert forall|i: int| 0 <= i < quiet.len() implies #[trigger] quiet[i]
        != MergeStatement::DeleteFullText && quiet[i] != MergeStatement::InsertAudit by {
        assert(quiet[i] == bare[i]);
    }
    quiet_run(s0, quiet, c, row);
    let with_fts = quiet.push(MergeStatement::DeleteFullText);
    run_behind(s0, quiet, MergeStatement::DeleteFullText, c, row);
    run_behind(s0, with_fts, MergeStatement::DeleteEntity, c, row);
    assert(with_fts.push(MergeStatement::DeleteEntity) =~= bare);
    if audited {
        run_behind(s0, bare, MergeStatement::InsertAudit, c, row);
        assert(script =~= bare.push(MergeStatement::InsertAudit));
    }
    tables_fare_alone(s0, script, c, row);
    law_script_merges(s.tables, c, access_count, confidence, audited);
}

/// Deleting the full-text rows of an entity leaves none of it and every other row.
pub proof fn law_full_text_forgets_the_loser(rows: Seq<Seq<char>>, id: Seq<char>, other: Seq<char>)
    ensures
        full_text_without(rows, id).contains(other) <==> rows.contains(other) && other != id,
    decreases rows.len(),
{
    if rows.len() > 0 {
        let front = rows.drop_last();
        law_full_text_forgets_the_loser(front, id, other);
        let before = full_text_without(front, id);
        let all = full_text_without(rows, id);
        assert(rows =~= front.push(rows.last()));
        if front.contains(other) {
            let i = choose|i: int| 0 <= i < front.len() && front[i] == other;
            assert(rows[i] == other);
        }
        if rows.contains(other) && !front.contains(other) {
            let i = choose|i: int| 0 <= i < rows.len() && rows[i] == other;
            if i < front.len() {
                assert(front[i] == other);
            }
        }
        assert(rows[rows.len() - 1] == rows.last());
        if before.contains(other) {
            let i = choose|i: int| 0 <= i < before.len() && before[i] == other;
            assert(all[i] == other);
        }
        if rows.last() != id {
            assert(all[before.len() as int] == rows.last());
        }
        if all.contains(other) && !before.contains(other) {
            let i = choose|i: int| 0 <= i < all.len() && all[i] == other;
            if i < before.len() {
                assert(before[i] == other);
            }
        }
    }
}

}
