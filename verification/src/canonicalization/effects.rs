//! What a merge does to the graph.
//!
//! Each statement of the executor is given its meaning on the tables, and the laws say
//! what a whole merge keeps: nothing points at the loser any more, other namespaces are
//! untouched, no relation of the keeper to itself is manufactured, and the captured
//! state is enough to undo everything.

use vstd::prelude::*;
use crate::canonicalization::executor::{confidence_column, merge_script, MergeStatement};
use crate::canonicalization::snapshot::{
    captures, captures_row, endpoint_loses, entity_row, keeper_has, loser_edges, repointed, repointed_on,
    EdgeSnapshotView, EntityMergePreState, EpisodicEdgeSnapshot, FactEndpoint, RepointedFact,
};
use crate::canonicalization::tables::{
    doomed_ids, is_doomed, EdgeView, EntityView, FactView, MergeOf, TablesView,
};
use crate::ieee::Binary32;
use crate::selection::{selects, selects_from_none, selects_one_more};

verus! {

/// What the statements of a merge refer to.
pub struct MergeContext {
    pub m: MergeOf,
    /// The ids of the facts that collapse.
    pub doomed: Seq<i64>,
    /// The loser's access count.
    pub access_count: int,
}

/// A fact after its subject was moved from the loser to the keeper.
pub open spec fn subject_moved(f: FactView, m: MergeOf) -> FactView {
    if f.subject_is(m.loser, m.group) {
        FactView { subject: m.keeper, inert: 1, ..f }
    } else {
        f
    }
}

/// A fact after its object was moved from the loser to the keeper.
pub open spec fn object_moved(f: FactView, m: MergeOf) -> FactView {
    if f.object_is(m.loser, m.group) {
        FactView { object: Some(m.keeper), inert: 1, ..f }
    } else {
        f
    }
}

/// A fact after the fact `id` was expired.
pub open spec fn expired_by(f: FactView, id: i64) -> FactView {
    if f.id == id {
        FactView { expired: true, ..f }
    } else {
        f
    }
}

/// An edge after the loser's edges were moved to the keeper, except where the keeper has
/// one of the same episode.
pub open spec fn edge_moved(e: EdgeView, edges: Seq<EdgeView>, m: MergeOf) -> EdgeView {
    if e.of(m.loser, m.group) && !keeper_has(edges, e.episode_id, m) {
        EdgeView { entity: m.keeper, ..e }
    } else {
        e
    }
}

/// The edges without those of entity `id`.
pub open spec fn edges_without(edges: Seq<EdgeView>, id: Seq<char>, group: Seq<char>) -> Seq<
    EdgeView,
>
    decreases edges.len(),
{
    if edges.len() == 0 {
        seq![]
    } else {
        let before = edges_without(edges.drop_last(), id, group);
        if edges.last().of(id, group) {
            before
        } else {
            before.push(edges.last())
        }
    }
}

/// The entities without the one named.
pub open spec fn entities_without(
    entities: Seq<EntityView>,
    id: Seq<char>,
    group: Seq<char>,
) -> Seq<EntityView>
    decreases entities.len(),
{
    if entities.len() == 0 {
        seq![]
    } else {
        let before = entities_without(entities.drop_last(), id, group);
        if entities.last().is(id, group) {
            before
        } else {
            before.push(entities.last())
        }
    }
}

/// The keeper's row with the loser's accesses added.
pub open spec fn access_added(e: EntityView, c: MergeContext) -> EntityView {
    if e.is(c.m.keeper, c.m.group) {
        EntityView { access_count: e.access_count + c.access_count, ..e }
    } else {
        e
    }
}

/// The keeper's row with the merged confidence.
pub open spec fn confidence_set(e: EntityView, c: MergeContext, v: Binary32) -> EntityView {
    if e.is(c.m.keeper, c.m.group) {
        EntityView { ner_confidence: confidence_column(v), ..e }
    } else {
        e
    }
}

/// The tables after a statement.
pub open spec fn tables_after(t: TablesView, s: MergeStatement, c: MergeContext) -> TablesView {
    match s {
        MergeStatement::RepointSubjects => TablesView {
            facts: t.facts.map_values(|f: FactView| subject_moved(f, c.m)),
            ..t
        },
        MergeStatement::RepointObjects => TablesView {
            facts: t.facts.map_values(|f: FactView| object_moved(f, c.m)),
            ..t
        },
        MergeStatement::RepointEdges => TablesView {
            edges: t.edges.map_values(|e: EdgeView| edge_moved(e, t.edges, c.m)),
            ..t
        },
        MergeStatement::DropLoserEdges => TablesView {
            edges: edges_without(t.edges, c.m.loser, c.m.group),
            ..t
        },
        MergeStatement::ExpireFact(i) => TablesView {
            facts: t.facts.map_values(|f: FactView| expired_by(f, c.doomed[i as int])),
            ..t
        },
        MergeStatement::AddAccess => TablesView {
            entities: t.entities.map_values(|e: EntityView| access_added(e, c)),
            ..t
        },
        MergeStatement::SetConfidence(v) => TablesView {
            entities: t.entities.map_values(|e: EntityView| confidence_set(e, c, v)),
            ..t
        },
        MergeStatement::DeleteEntity => TablesView {
            entities: entities_without(t.entities, c.m.loser, c.m.group),
            ..t
        },
        MergeStatement::DeleteFullText => t,
        MergeStatement::InsertAudit => t,
    }
}

/// The tables after a run of statements.
pub open spec fn tables_after_all(
    t: TablesView,
    script: Seq<MergeStatement>,
    c: MergeContext,
) -> TablesView
    decreases script.len(),
{
    if script.len() == 0 {
        t
    } else {
        tables_after(tables_after_all(t, script.drop_last(), c), script.last(), c)
    }
}

/// A fact after a whole merge.
pub open spec fn merged_fact(f: FactView, c: MergeContext) -> FactView {
    let moved = object_moved(subject_moved(f, c.m), c.m);
    if c.doomed.contains(f.id) {
        FactView { expired: true, ..moved }
    } else {
        moved
    }
}

/// The edges after a whole merge.
pub open spec fn merged_edges(edges: Seq<EdgeView>, m: MergeOf) -> Seq<EdgeView> {
    edges_without(
        edges.map_values(|e: EdgeView| edge_moved(e, edges, m)),
        m.loser,
        m.group,
    )
}

/// An entity other than the loser after a whole merge.
pub open spec fn merged_entity(
    e: EntityView,
    c: MergeContext,
    confidence: Option<Binary32>,
) -> EntityView {
    let counted = if c.access_count > 0 {
        access_added(e, c)
    } else {
        e
    };
    match confidence {
        Some(v) => confidence_set(counted, c, v),
        None => counted,
    }
}

/// The tables after a whole merge.
pub open spec fn merged_tables(
    t: TablesView,
    c: MergeContext,
    confidence: Option<Binary32>,
) -> TablesView {
    TablesView {
        facts: t.facts.map_values(|f: FactView| merged_fact(f, c)),
        edges: merged_edges(t.edges, c.m),
        entities: entities_without(
            t.entities.map_values(|e: EntityView| merged_entity(e, c, confidence)),
            c.m.loser,
            c.m.group,
        ),
    }
}

proof fn run_splits(t: TablesView, a: Seq<MergeStatement>, b: Seq<MergeStatement>, c: MergeContext)
    ensures
        tables_after_all(t, a + b, c) == tables_after_all(tables_after_all(t, a, c), b, c),
    decreases b.len(),
{
    if b.len() == 0 {
        assert(a + b =~= a);
    } else {
        assert((a + b).drop_last() =~= a + b.drop_last());
        run_splits(t, a, b.drop_last(), c);
    }
}

proof fn run_one(t: TablesView, s: MergeStatement, c: MergeContext)
    ensures
        tables_after_all(t, seq![s], c) == tables_after(t, s, c),
{
    assert(seq![s].drop_last() =~= Seq::<MergeStatement>::empty());
    reveal_with_fuel(tables_after_all, 2);
}

proof fn run_none(t: TablesView, c: MergeContext)
    ensures
        tables_after_all(t, seq![], c) == t,
{
}

/// A fact after the first `n` collapsed facts were expired.
pub open spec fn expired_among(f: FactView, doomed: Seq<i64>, n: int) -> FactView {
    if exists|i: int| 0 <= i < n && #[trigger] doomed[i] == f.id {
        FactView { expired: true, ..f }
    } else {
        f
    }
}

proof fn run_expiries(t: TablesView, c: MergeContext, n: nat)
    requires
        n <= c.doomed.len() <= usize::MAX,
    ensures
        ({
            let script = Seq::new(n, |k: int| MergeStatement::ExpireFact((0 + k) as usize));
            tables_after_all(t, script, c) == (TablesView {
                facts: t.facts.map_values(|f: FactView| expired_among(f, c.doomed, n as int)),
                ..t
            })
        }),
    decreases n,
{
    let script = Seq::new(n, |k: int| MergeStatement::ExpireFact((0 + k) as usize));
    let after = tables_after_all(t, script, c);
    let goal = TablesView {
        facts: t.facts.map_values(|f: FactView| expired_among(f, c.doomed, n as int)),
        ..t
    };
    if n == 0 {
        assert(script =~= Seq::<MergeStatement>::empty());
        assert(goal.facts =~= t.facts);
    } else {
        let shorter = Seq::new((n - 1) as nat, |k: int| MergeStatement::ExpireFact((0 + k) as usize));
        assert(script.drop_last() =~= shorter);
        run_expiries(t, c, (n - 1) as nat);
        assert(script.last() == MergeStatement::ExpireFact((n - 1) as usize));
        assert(after.facts =~= goal.facts) by {
            assert forall|x: int| 0 <= x < t.facts.len() implies after.facts[x]
                == goal.facts[x] by {
                let f = t.facts[x];
                let before = expired_among(f, c.doomed, n - 1);
                assert(before.id == f.id);
                assert(after.facts[x] == expired_by(before, c.doomed[n - 1]));
                if c.doomed[n - 1] == f.id {
                    assert(exists|i: int| 0 <= i < n && #[trigger] c.doomed[i] == f.id);
                }
            }
        }
    }
}

/// Executing the whole script does to the tables what a merge is meant to do.
pub proof fn law_script_merges(
    t: TablesView,
    c: MergeContext,
    access_count: i64,
    confidence: Option<Binary32>,
    audited: bool,
)
    requires
        c.doomed.len() <= usize::MAX,
        c.access_count == access_count,
    ensures
        tables_after_all(
            t,
            merge_script(c.doomed.len() as usize, access_count, confidence, audited),
            c,
        ) == merged_tables(t, c, confidence),
{
    let n = c.doomed.len();
    let s1 = MergeStatement::RepointSubjects;
    let s2 = MergeStatement::RepointObjects;
    let s3 = MergeStatement::RepointEdges;
    let s4 = MergeStatement::DropLoserEdges;
    let expiries = Seq::new(n, |k: int| MergeStatement::ExpireFact((0 + k) as usize));
    let counts: Seq<MergeStatement> = if access_count > 0 {
        seq![MergeStatement::AddAccess]
    } else {
        seq![]
    };
    let trust: Seq<MergeStatement> = match confidence {
        Some(v) => seq![MergeStatement::SetConfidence(v)],
        None => seq![],
    };
    let fts = MergeStatement::DeleteFullText;
    let del = MergeStatement::DeleteEntity;
    let audit: Seq<MergeStatement> = if audited {
        seq![MergeStatement::InsertAudit]
    } else {
        seq![]
    };
    let script = merge_script(n as usize, access_count, confidence, audited);
    let p4 = seq![s1] + seq![s2] + seq![s3] + seq![s4];
    let p5 = p4 + expiries;
    let p6 = p5 + counts;
    let p7 = p6 + trust;
    let p8 = p7 + seq![fts];
    let p9 = p8 + seq![del];
    assert(script =~= p9 + audit);
    run_splits(t, p9, audit, c);
    run_splits(t, p8, seq![del], c);
    run_splits(t, p7, seq![fts], c);
    run_splits(t, p6, trust, c);
    run_splits(t, p5, counts, c);
    run_splits(t, p4, expiries, c);
    run_splits(t, seq![s1] + seq![s2] + seq![s3], seq![s4], c);
    run_splits(t, seq![s1] + seq![s2], seq![s3], c);
    run_splits(t, seq![s1], seq![s2], c);
    run_one(t, s1, c);
    let t1 = tables_after(t, s1, c);
    run_one(t1, s2, c);
    let t2 = tables_after(t1, s2, c);
    run_one(t2, s3, c);
    let t3 = tables_after(t2, s3, c);
    run_one(t3, s4, c);
    let t4 = tables_after(t3, s4, c);
    run_expiries(t4, c, n);
    let t5 = tables_after_all(t4, expiries, c);
    let t6 = tables_after_all(t5, counts, c);
    if access_count > 0 {
        run_one(t5, MergeStatement::AddAccess, c);
    } else {
        run_none(t5, c);
    }
    let t7 = tables_after_all(t6, trust, c);
    match confidence {
        Some(v) => {
            run_one(t6, MergeStatement::SetConfidence(v), c);
        },
        None => {
            run_none(t6, c);
        },
    }
    run_one(t7, fts, c);
    run_one(t7, del, c);
    let t9 = tables_after(t7, del, c);
    if audited {
        run_one(t9, MergeStatement::InsertAudit, c);
    } else {
        run_none(t9, c);
    }
    let goal = merged_tables(t, c, confidence);
    assert(t9.facts =~= goal.facts) by {
        assert forall|x: int| 0 <= x < t.facts.len() implies t9.facts[x] == goal.facts[x] by {
            let f = t.facts[x];
            let moved = object_moved(subject_moved(f, c.m), c.m);
            assert(t4.facts[x] == moved);
            assert(moved.id == f.id);
            assert(t9.facts[x] == expired_among(moved, c.doomed, n as int));
        }
    }
    assert(t7.entities =~= t.entities.map_values(
        |e: EntityView| merged_entity(e, c, confidence),
    ));
    assert(t9.edges =~= goal.edges);
}

/// The keys of the tables are unique.
pub open spec fn keys_unique(t: TablesView) -> bool {
    &&& forall|x: int, y: int|
        0 <= x < y < t.facts.len() ==> (#[trigger] t.facts[x]).id != (#[trigger] t.facts[y]).id
    &&& edge_keys_unique(t.edges)
    &&& entity_keys_unique(t.entities)
}

/// No two edges have the same key.
pub open spec fn edge_keys_unique(edges: Seq<EdgeView>) -> bool {
    forall|x: int, y: int|
        0 <= x < y < edges.len() ==> !same_edge_key(#[trigger] edges[x], #[trigger] edges[y])
}

/// No two entities have the same key.
pub open spec fn entity_keys_unique(entities: Seq<EntityView>) -> bool {
    forall|x: int, y: int|
        0 <= x < y < entities.len() ==> !(#[trigger] entities[x]).is(
            (#[trigger] entities[y]).id,
            entities[y].group_id,
        )
}

/// Two edges have the same key.
pub open spec fn same_edge_key(a: EdgeView, b: EdgeView) -> bool {
    a.episode_id == b.episode_id && a.entity == b.entity && a.group == b.group
}

/// A merge of two different entities whose context was captured from the tables.
pub open spec fn captured_from(c: MergeContext, t: TablesView) -> bool {
    &&& c.m.loser != c.m.keeper
    &&& c.doomed == doomed_ids(t.facts, c.m)
    &&& keys_unique(t)
}

proof fn doomed_ids_are_doomed(facts: Seq<FactView>, m: MergeOf, id: i64)
    ensures
        doomed_ids(facts, m).contains(id) <==> exists|x: int|
            0 <= x < facts.len() && (#[trigger] facts[x]).id == id && is_doomed(facts[x], m),
    decreases facts.len(),
{
    if facts.len() > 0 {
        let front = facts.drop_last();
        doomed_ids_are_doomed(front, m, id);
        let before = doomed_ids(front, m);
        let all = doomed_ids(facts, m);
        let last = facts.len() - 1;
        if before.contains(id) {
            let i = choose|i: int| 0 <= i < before.len() && before[i] == id;
            assert(all[i] == id);
            let x = choose|x: int|
                0 <= x < front.len() && (#[trigger] front[x]).id == id && is_doomed(front[x], m);
            assert(facts[x] == front[x]);
        }
        if is_doomed(facts[last], m) && facts[last].id == id {
            assert(all[before.len() as int] == id);
        }
        if all.contains(id) && !before.contains(id) {
            let i = choose|i: int| 0 <= i < all.len() && all[i] == id;
            if i < before.len() {
                assert(before[i] == id);
            }
            assert(facts[last].id == id && is_doomed(facts[last], m));
        }
        if exists|x: int|
            0 <= x < facts.len() && (#[trigger] facts[x]).id == id && is_doomed(facts[x], m) {
            let x = choose|x: int|
                0 <= x < facts.len() && (#[trigger] facts[x]).id == id && is_doomed(facts[x], m);
            if x < front.len() {
                assert(front[x] == facts[x]);
            }
        }
    }
}

/// With unique ids, the captured ids single out exactly the doomed facts.
proof fn doomed_iff_captured(t: TablesView, c: MergeContext, x: int)
    requires
        captured_from(c, t),
        0 <= x < t.facts.len(),
    ensures
        c.doomed.contains(t.facts[x].id) <==> is_doomed(t.facts[x], c.m),
{
    doomed_ids_are_doomed(t.facts, c.m, t.facts[x].id);
    if c.doomed.contains(t.facts[x].id) {
        let y = choose|y: int|
            0 <= y < t.facts.len() && (#[trigger] t.facts[y]).id == t.facts[x].id && is_doomed(
                t.facts[y],
                c.m,
            );
        if x < y {
            assert(t.facts[x].id != t.facts[y].id);
        } else if y < x {
            assert(t.facts[y].id != t.facts[x].id);
        }
    }
}

proof fn edges_without_are_the_others(
    edges: Seq<EdgeView>,
    id: Seq<char>,
    group: Seq<char>,
    e: EdgeView,
)
    ensures
        edges_without(edges, id, group).contains(e) <==> edges.contains(e) && !e.of(id, group),
    decreases edges.len(),
{
    if edges.len() > 0 {
        let front = edges.drop_last();
        edges_without_are_the_others(front, id, group, e);
        let before = edges_without(front, id, group);
        let all = edges_without(edges, id, group);
        if before.contains(e) {
            let i = choose|i: int| 0 <= i < before.len() && before[i] == e;
            assert(all[i] == e);
        }
        if front.contains(e) {
            let i = choose|i: int| 0 <= i < front.len() && front[i] == e;
            assert(edges[i] == e);
        }
        if !edges.last().of(id, group) {
            assert(all[before.len() as int] == edges.last());
        }
        assert(edges[edges.len() - 1] == edges.last());
        if all.contains(e) && !before.contains(e) {
            let i = choose|i: int| 0 <= i < all.len() && all[i] == e;
            if i < before.len() {
                assert(before[i] == e);
            }
        }
        if edges.contains(e) && !front.contains(e) {
            let i = choose|i: int| 0 <= i < edges.len() && edges[i] == e;
            if i < front.len() {
                assert(front[i] == e);
            }
        }
    }
}

proof fn entities_without_are_the_others(
    entities: Seq<EntityView>,
    id: Seq<char>,
    group: Seq<char>,
    e: EntityView,
)
    ensures
        entities_without(entities, id, group).contains(e) <==> entities.contains(e) && !e.is(
            id,
            group,
        ),
    decreases entities.len(),
{
    if entities.len() > 0 {
        let front = entities.drop_last();
        entities_without_are_the_others(front, id, group, e);
        let before = entities_without(front, id, group);
        let all = entities_without(entities, id, group);
        if before.contains(e) {
            let i = choose|i: int| 0 <= i < before.len() && before[i] == e;
            assert(all[i] == e);
        }
        if front.contains(e) {
            let i = choose|i: int| 0 <= i < front.len() && front[i] == e;
            assert(entities[i] == e);
        }
        if !entities.last().is(id, group) {
            assert(all[before.len() as int] == entities.last());
        }
        assert(entities[entities.len() - 1] == entities.last());
        if all.contains(e) && !before.contains(e) {
            let i = choose|i: int| 0 <= i < all.len() && all[i] == e;
            if i < before.len() {
                assert(before[i] == e);
            }
        }
        if entities.contains(e) && !front.contains(e) {
            let i = choose|i: int| 0 <= i < entities.len() && entities[i] == e;
            if i < front.len() {
                assert(front[i] == e);
            }
        }
    }
}

/// After a merge nothing in the namespace points at the loser: no fact has it as an
/// endpoint, no edge is its own, and its row is gone.
pub proof fn law_nothing_points_at_the_loser(
    t: TablesView,
    c: MergeContext,
    confidence: Option<Binary32>,
)
    requires
        c.m.loser != c.m.keeper,
    ensures
        ({
            let after = merged_tables(t, c, confidence);
            &&& forall|x: int|
                0 <= x < after.facts.len() ==> !(#[trigger] after.facts[x]).subject_is(
                    c.m.loser,
                    c.m.group,
                ) && !after.facts[x].object_is(c.m.loser, c.m.group)
            &&& forall|e: EdgeView| #[trigger]
                after.edges.contains(e) ==> !e.of(c.m.loser, c.m.group)
            &&& forall|e: EntityView| #[trigger]
                after.entities.contains(e) ==> !e.is(c.m.loser, c.m.group)
        }),
{
    let after = merged_tables(t, c, confidence);
    assert forall|x: int| 0 <= x < after.facts.len() implies !(
    #[trigger] after.facts[x]).subject_is(c.m.loser, c.m.group) && !after.facts[x].object_is(
        c.m.loser,
        c.m.group,
    ) by {
        assert(after.facts[x] == merged_fact(t.facts[x], c));
    }
    assert forall|e: EdgeView| #[trigger] after.edges.contains(e) implies !e.of(
        c.m.loser,
        c.m.group,
    ) by {
        edges_without_are_the_others(
            t.edges.map_values(|e: EdgeView| edge_moved(e, t.edges, c.m)),
            c.m.loser,
            c.m.group,
            e,
        );
    }
    assert forall|e: EntityView| #[trigger] after.entities.contains(e) implies !e.is(
        c.m.loser,
        c.m.group,
    ) by {
        entities_without_are_the_others(
            t.entities.map_values(|e: EntityView| merged_entity(e, c, confidence)),
            c.m.loser,
            c.m.group,
            e,
        );
    }
}

/// A merge touches its own namespace only: a fact without an endpoint in it, and an edge
/// or an entity of another one, stay as they are, and none appears.
pub proof fn law_other_namespaces_untouched(
    t: TablesView,
    c: MergeContext,
    confidence: Option<Binary32>,
)
    requires
        captured_from(c, t),
    ensures
        ({
            let after = merged_tables(t, c, confidence);
            &&& after.facts.len() == t.facts.len()
            &&& forall|x: int|
                0 <= x < t.facts.len() && (#[trigger] t.facts[x]).subject_group != c.m.group
                    && t.facts[x].object_group != Some(c.m.group) ==> after.facts[x] == t.facts[x]
            &&& forall|e: EdgeView|
                e.group != c.m.group ==> (#[trigger] after.edges.contains(e)
                    <==> t.edges.contains(e))
            &&& forall|e: EntityView|
                e.group_id != c.m.group ==> (#[trigger] after.entities.contains(e)
                    <==> t.entities.contains(e))
        }),
{
    let after = merged_tables(t, c, confidence);
    assert forall|x: int|
        0 <= x < t.facts.len() && (#[trigger] t.facts[x]).subject_group != c.m.group
            && t.facts[x].object_group != Some(c.m.group) implies after.facts[x] == t.facts[x] by {
        doomed_iff_captured(t, c, x);
    }
    let moved = t.edges.map_values(|e: EdgeView| edge_moved(e, t.edges, c.m));
    assert forall|e: EdgeView| e.group != c.m.group implies (#[trigger] after.edges.contains(e)
        <==> t.edges.contains(e)) by {
        edges_without_are_the_others(moved, c.m.loser, c.m.group, e);
        if moved.contains(e) {
            let i = choose|i: int| 0 <= i < moved.len() && moved[i] == e;
            assert(moved[i] == edge_moved(t.edges[i], t.edges, c.m));
            assert(t.edges[i] == e);
        }
        if t.edges.contains(e) {
            let i = choose|i: int| 0 <= i < t.edges.len() && t.edges[i] == e;
            assert(moved[i] == e);
        }
    }
    let rows = t.entities.map_values(|e: EntityView| merged_entity(e, c, confidence));
    assert forall|e: EntityView| e.group_id != c.m.group implies (
    #[trigger] after.entities.contains(e) <==> t.entities.contains(e)) by {
        entities_without_are_the_others(rows, c.m.loser, c.m.group, e);
        if rows.contains(e) {
            let i = choose|i: int| 0 <= i < rows.len() && rows[i] == e;
            assert(rows[i] == merged_entity(t.entities[i], c, confidence));
            assert(t.entities[i] == e);
        }
        if t.entities.contains(e) {
            let i = choose|i: int| 0 <= i < t.entities.len() && t.entities[i] == e;
            assert(rows[i] == e);
        }
    }
}

/// A merge leaves no live relation of the keeper to itself that was not there before: it
/// expires exactly the live facts that it collapses. A fact that already ran from the
/// keeper to itself is not touched.
pub proof fn law_no_self_loop_is_manufactured(
    t: TablesView,
    c: MergeContext,
    confidence: Option<Binary32>,
    x: int,
)
    requires
        captured_from(c, t),
        0 <= x < t.facts.len(),
    ensures
        ({
            let before = t.facts[x];
            let after = merged_tables(t, c, confidence).facts[x];
            &&& is_doomed(before, c.m) <==> !before.expired && after.loops_on(
                c.m.keeper,
                c.m.group,
            ) && !before.loops_on(c.m.keeper, c.m.group)
            &&& after.expired <==> before.expired || is_doomed(before, c.m)
            &&& !after.expired && after.loops_on(c.m.keeper, c.m.group) ==> before == after
        }),
{
    doomed_iff_captured(t, c, x);
}

/// A fact that a merge re-points no longer counts as directly asserted; every other fact
/// keeps its flag. No fact changes its id or its namespaces.
pub proof fn law_repointed_facts_are_inert(
    t: TablesView,
    c: MergeContext,
    confidence: Option<Binary32>,
    x: int,
)
    requires
        0 <= x < t.facts.len(),
    ensures
        ({
            let before = t.facts[x];
            let after = merged_tables(t, c, confidence).facts[x];
            &&& after.id == before.id
            &&& after.subject_group == before.subject_group
            &&& after.object_group == before.object_group
            &&& after.inert == (if before.subject_is(c.m.loser, c.m.group) || before.object_is(
                c.m.loser,
                c.m.group,
            ) {
                1
            } else {
                before.inert
            })
        }),
{
}

/// Entity `id` of namespace `group` has an edge of the episode.
pub open spec fn linked(
    edges: Seq<EdgeView>,
    id: Seq<char>,
    group: Seq<char>,
    episode_id: i64,
) -> bool {
    exists|e: EdgeView| #[trigger]
        edges.contains(e) && e.of(id, group) && e.episode_id == episode_id
}

/// The keeper is linked to an episode after a merge exactly when one of the two entities
/// was before: no presence is lost, and none is invented.
pub proof fn law_presence_is_kept(t: TablesView, c: MergeContext, episode_id: i64)
    requires
        c.m.loser != c.m.keeper,
    ensures
        linked(merged_edges(t.edges, c.m), c.m.keeper, c.m.group, episode_id) <==> linked(
            t.edges,
            c.m.keeper,
            c.m.group,
            episode_id,
        ) || linked(t.edges, c.m.loser, c.m.group, episode_id),
{
    let m = c.m;
    let moved = t.edges.map_values(|e: EdgeView| edge_moved(e, t.edges, m));
    let after = merged_edges(t.edges, m);
    if linked(t.edges, m.keeper, m.group, episode_id) {
        let e = choose|e: EdgeView| #[trigger]
            t.edges.contains(e) && e.of(m.keeper, m.group) && e.episode_id == episode_id;
        let i = choose|i: int| 0 <= i < t.edges.len() && t.edges[i] == e;
        assert(moved[i] == e);
        edges_without_are_the_others(moved, m.loser, m.group, e);
        assert(after.contains(e));
    } else if linked(t.edges, m.loser, m.group, episode_id) {
        let e = choose|e: EdgeView| #[trigger]
            t.edges.contains(e) && e.of(m.loser, m.group) && e.episode_id == episode_id;
        let i = choose|i: int| 0 <= i < t.edges.len() && t.edges[i] == e;
        if keeper_has(t.edges, episode_id, m) {
            let j = choose|j: int|
                0 <= j < t.edges.len() && (#[trigger] t.edges[j]).of(m.keeper, m.group)
                    && t.edges[j].episode_id == episode_id;
            assert(t.edges.contains(t.edges[j]));
            assert(false);
        }
        let f = EdgeView { entity: m.keeper, ..e };
        assert(moved[i] == f);
        edges_without_are_the_others(moved, m.loser, m.group, f);
        assert(after.contains(f));
    }
    if linked(after, m.keeper, m.group, episode_id) {
        let f = choose|f: EdgeView| #[trigger]
            after.contains(f) && f.of(m.keeper, m.group) && f.episode_id == episode_id;
        edges_without_are_the_others(moved, m.loser, m.group, f);
        let i = choose|i: int| 0 <= i < moved.len() && moved[i] == f;
        assert(moved[i] == edge_moved(t.edges[i], t.edges, m));
        assert(t.edges.contains(t.edges[i]));
    }
}

proof fn edges_without_keep_keys(edges: Seq<EdgeView>, id: Seq<char>, group: Seq<char>)
    requires
        edge_keys_unique(edges),
    ensures
        edge_keys_unique(edges_without(edges, id, group)),
    decreases edges.len(),
{
    if edges.len() > 0 {
        let front = edges.drop_last();
        let last = edges.last();
        assert forall|x: int, y: int| 0 <= x < y < front.len() implies !same_edge_key(
            #[trigger] front[x],
            #[trigger] front[y],
        ) by {
            assert(front[x] == edges[x] && front[y] == edges[y]);
        }
        edges_without_keep_keys(front, id, group);
        let before = edges_without(front, id, group);
        assert forall|x: int| 0 <= x < before.len() implies !same_edge_key(
            #[trigger] before[x],
            last,
        ) by {
            assert(before.contains(before[x]));
            edges_without_are_the_others(front, id, group, before[x]);
            let k = choose|k: int| 0 <= k < front.len() && front[k] == before[x];
            assert(edges[k] == before[x]);
            assert(edges[edges.len() - 1] == last);
        }
    }
}

proof fn entities_without_keep_keys(entities: Seq<EntityView>, id: Seq<char>, group: Seq<char>)
    requires
        entity_keys_unique(entities),
    ensures
        entity_keys_unique(entities_without(entities, id, group)),
    decreases entities.len(),
{
    if entities.len() > 0 {
        let front = entities.drop_last();
        let last = entities.last();
        assert forall|x: int, y: int| 0 <= x < y < front.len() implies !(#[trigger] front[x]).is(
            (#[trigger] front[y]).id,
            front[y].group_id,
        ) by {
            assert(front[x] == entities[x] && front[y] == entities[y]);
        }
        entities_without_keep_keys(front, id, group);
        let before = entities_without(front, id, group);
        assert forall|x: int| 0 <= x < before.len() implies !(#[trigger] before[x]).is(
            last.id,
            last.group_id,
        ) by {
            assert(before.contains(before[x]));
            entities_without_are_the_others(front, id, group, before[x]);
            let k = choose|k: int| 0 <= k < front.len() && front[k] == before[x];
            assert(entities[k] == before[x]);
            assert(entities[entities.len() - 1] == last);
        }
    }
}

/// A merge keeps the keys of the tables unique.
pub proof fn law_keys_stay_unique(t: TablesView, c: MergeContext, confidence: Option<Binary32>)
    requires
        keys_unique(t),
    ensures
        keys_unique(merged_tables(t, c, confidence)),
{
    let m = c.m;
    let after = merged_tables(t, c, confidence);
    assert forall|x: int, y: int| 0 <= x < y < after.facts.len() implies (
    #[trigger] after.facts[x]).id != (#[trigger] after.facts[y]).id by {
        assert(after.facts[x].id == t.facts[x].id);
        assert(after.facts[y].id == t.facts[y].id);
    }
    let moved = t.edges.map_values(|e: EdgeView| edge_moved(e, t.edges, m));
    assert forall|x: int, y: int| 0 <= x < y < moved.len() implies !same_edge_key(
        #[trigger] moved[x],
        #[trigger] moved[y],
    ) by {
        let (a, b) = (t.edges[x], t.edges[y]);
        assert(moved[x] == edge_moved(a, t.edges, m));
        assert(moved[y] == edge_moved(b, t.edges, m));
        assert(!same_edge_key(a, b));
    }
    edges_without_keep_keys(moved, m.loser, m.group);
    let rows = t.entities.map_values(|e: EntityView| merged_entity(e, c, confidence));
    assert forall|x: int, y: int| 0 <= x < y < rows.len() implies !(#[trigger] rows[x]).is(
        (#[trigger] rows[y]).id,
        rows[y].group_id,
    ) by {
        assert(rows[x] == merged_entity(t.entities[x], c, confidence));
        assert(rows[y] == merged_entity(t.entities[y], c, confidence));
    }
    entities_without_keep_keys(rows, m.loser, m.group);
}

/// After a merge the keeper has at most one edge of an episode, however many of the two
/// entities were linked to it.
pub proof fn law_keeper_has_one_edge_per_episode(
    t: TablesView,
    c: MergeContext,
    confidence: Option<Binary32>,
    x: int,
    y: int,
)
    requires
        keys_unique(t),
        0 <= x < merged_tables(t, c, confidence).edges.len(),
        0 <= y < merged_tables(t, c, confidence).edges.len(),
        merged_tables(t, c, confidence).edges[x].of(c.m.keeper, c.m.group),
        merged_tables(t, c, confidence).edges[y].of(c.m.keeper, c.m.group),
        merged_tables(t, c, confidence).edges[x].episode_id == merged_tables(
            t,
            c,
            confidence,
        ).edges[y].episode_id,
    ensures
        x == y,
{
    law_keys_stay_unique(t, c, confidence);
    let edges = merged_tables(t, c, confidence).edges;
    if x < y {
        assert(!same_edge_key(edges[x], edges[y]));
    } else if y < x {
        assert(!same_edge_key(edges[y], edges[x]));
    }
}

/// The keeper's row after a merge has its own accesses and the loser's, and apart from
/// its count and its confidence it is what it was; every other row but the loser's is
/// untouched.
pub proof fn law_keeper_inherits_the_accesses(
    t: TablesView,
    c: MergeContext,
    confidence: Option<Binary32>,
    x: int,
)
    requires
        c.m.loser != c.m.keeper,
        c.access_count >= 0,
        0 <= x < t.entities.len(),
        !t.entities[x].is(c.m.loser, c.m.group),
    ensures
        ({
            let before = t.entities[x];
            let after = merged_tables(t, c, confidence);
            if before.is(c.m.keeper, c.m.group) {
                after.entities.contains(
                    EntityView {
                        access_count: before.access_count + c.access_count,
                        ner_confidence: match confidence {
                            Some(v) => confidence_column(v),
                            None => before.ner_confidence,
                        },
                        ..before
                    },
                )
            } else {
                after.entities.contains(before)
            }
        }),
{
    let rows = t.entities.map_values(|e: EntityView| merged_entity(e, c, confidence));
    let e = merged_entity(t.entities[x], c, confidence);
    assert(rows[x] == e);
    assert(rows.contains(e));
    entities_without_are_the_others(rows, c.m.loser, c.m.group, e);
}

/// The endpoint of fact `id` was re-pointed.
pub open spec fn was_repointed(list: Seq<RepointedFact>, id: i64, endpoint: FactEndpoint) -> bool {
    exists|i: int|
        0 <= i < list.len() && (#[trigger] list[i]).fact_id == id && list[i].endpoint == endpoint
}

/// The flag that fact `id` had before, when it was re-pointed.
pub open spec fn prior_flag(list: Seq<RepointedFact>, id: i64) -> i64 {
    list[choose|i: int|
        0 <= i < list.len() && (#[trigger] list[i]).fact_id == id].prior_corroboration_inert
}

/// A fact with what the pre-state captured put back: re-pointed endpoints return to the
/// loser, the flag to its prior value, and a fact that the merge expired is live again.
pub open spec fn undone_fact(
    g: FactView,
    list: Seq<RepointedFact>,
    self_loops: Seq<i64>,
    m: MergeOf,
) -> FactView {
    let subject = was_repointed(list, g.id, FactEndpoint::Subject);
    let object = was_repointed(list, g.id, FactEndpoint::Object);
    FactView {
        subject: if subject {
            m.loser
        } else {
            g.subject
        },
        object: if object {
            Some(m.loser)
        } else {
            g.object
        },
        inert: if subject || object {
            prior_flag(list, g.id)
        } else {
            g.inert
        },
        expired: if self_loops.contains(g.id) {
            false
        } else {
            g.expired
        },
        ..g
    }
}

/// What is captured of one side are its losing endpoints, each with its flag.
proof fn repointed_on_is_exact(
    facts: Seq<FactView>,
    endpoint: FactEndpoint,
    m: MergeOf,
)
    ensures
        forall|i: int|
            0 <= i < repointed_on(facts, endpoint, m).len() ==> is_repoint_of_some(
                #[trigger] repointed_on(facts, endpoint, m)[i],
                facts,
                endpoint,
                m,
            ),
        forall|x: int|
            0 <= x < facts.len() && endpoint_loses(#[trigger] facts[x], endpoint, m)
                ==> repointed_on(facts, endpoint, m).contains(
                RepointedFact {
                    fact_id: facts[x].id,
                    endpoint,
                    prior_corroboration_inert: facts[x].inert,
                },
            ),
    decreases facts.len(),
{
    if facts.len() > 0 {
        let front = facts.drop_last();
        repointed_on_is_exact(front, endpoint, m);
        let before = repointed_on(front, endpoint, m);
        let all = repointed_on(facts, endpoint, m);
        let last = facts.len() - 1;
        assert forall|i: int| 0 <= i < all.len() implies is_repoint_of_some(
            #[trigger] all[i],
            facts,
            endpoint,
            m,
        ) by {
            if i < before.len() {
                assert(all[i] == before[i]);
                assert(is_repoint_of_some(before[i], front, endpoint, m));
                let x = choose|x: int|
                    0 <= x < front.len() && is_repoint_of(
                        before[i],
                        #[trigger] front[x],
                        endpoint,
                        m,
                    );
                assert(facts[x] == front[x]);
            } else {
                assert(is_repoint_of(all[i], facts[last], endpoint, m));
            }
        }
        assert forall|x: int|
            0 <= x < facts.len() && endpoint_loses(#[trigger] facts[x], endpoint, m) implies
            all.contains(
            RepointedFact {
                fact_id: facts[x].id,
                endpoint,
                prior_corroboration_inert: facts[x].inert,
            },
        ) by {
            let r = RepointedFact {
                fact_id: facts[x].id,
                endpoint,
                prior_corroboration_inert: facts[x].inert,
            };
            if x < last {
                assert(front[x] == facts[x]);
                let i = choose|i: int| 0 <= i < before.len() && before[i] == r;
                assert(all[i] == r);
            } else {
                assert(all[before.len() as int] == r);
            }
        }
    }
}

/// `r` captures the losing endpoint of `f`.
pub open spec fn is_repoint_of(
    r: RepointedFact,
    f: FactView,
    endpoint: FactEndpoint,
    m: MergeOf,
) -> bool {
    &&& endpoint_loses(f, endpoint, m)
    &&& r == (RepointedFact { fact_id: f.id, endpoint, prior_corroboration_inert: f.inert })
}

/// `r` captures the losing endpoint of one of the facts.
pub open spec fn is_repoint_of_some(
    r: RepointedFact,
    facts: Seq<FactView>,
    endpoint: FactEndpoint,
    m: MergeOf,
) -> bool {
    exists|x: int| 0 <= x < facts.len() && is_repoint_of(r, #[trigger] facts[x], endpoint, m)
}

/// Whatever is captured under the id of fact `x` is about fact `x`.
proof fn captured_is_about(t: TablesView, m: MergeOf, x: int, i: int)
    requires
        keys_unique(t),
        0 <= x < t.facts.len(),
        0 <= i < repointed(t.facts, m).len(),
        repointed(t.facts, m)[i].fact_id == t.facts[x].id,
    ensures
        is_repoint_of(
            repointed(t.facts, m)[i],
            t.facts[x],
            repointed(t.facts, m)[i].endpoint,
            m,
        ),
{
    let subjects = repointed_on(t.facts, FactEndpoint::Subject, m);
    let objects = repointed_on(t.facts, FactEndpoint::Object, m);
    let list = repointed(t.facts, m);
    repointed_on_is_exact(t.facts, FactEndpoint::Subject, m);
    repointed_on_is_exact(t.facts, FactEndpoint::Object, m);
    let endpoint = if i < subjects.len() {
        assert(list[i] == subjects[i]);
        FactEndpoint::Subject
    } else {
        assert(list[i] == objects[i - subjects.len()]);
        FactEndpoint::Object
    };
    assert(is_repoint_of_some(list[i], t.facts, endpoint, m));
    let y = choose|y: int|
        0 <= y < t.facts.len() && is_repoint_of(list[i], #[trigger] t.facts[y], endpoint, m);
    if x < y {
        assert(t.facts[x].id != t.facts[y].id);
    } else if y < x {
        assert(t.facts[y].id != t.facts[x].id);
    }
}

/// An endpoint is captured exactly when it loses.
proof fn captured_iff_loses(t: TablesView, m: MergeOf, x: int, endpoint: FactEndpoint)
    requires
        keys_unique(t),
        0 <= x < t.facts.len(),
    ensures
        was_repointed(repointed(t.facts, m), t.facts[x].id, endpoint) <==> endpoint_loses(
            t.facts[x],
            endpoint,
            m,
        ),
{
    let subjects = repointed_on(t.facts, FactEndpoint::Subject, m);
    let objects = repointed_on(t.facts, FactEndpoint::Object, m);
    let list = repointed(t.facts, m);
    let id = t.facts[x].id;
    if was_repointed(list, id, endpoint) {
        let i = choose|i: int|
            0 <= i < list.len() && (#[trigger] list[i]).fact_id == id && list[i].endpoint
                == endpoint;
        captured_is_about(t, m, x, i);
    }
    if endpoint_loses(t.facts[x], endpoint, m) {
        repointed_on_is_exact(t.facts, endpoint, m);
        let r = RepointedFact {
            fact_id: id,
            endpoint,
            prior_corroboration_inert: t.facts[x].inert,
        };
        match endpoint {
            FactEndpoint::Subject => {
                let i = choose|i: int| 0 <= i < subjects.len() && subjects[i] == r;
                assert(list[i] == r);
            },
            FactEndpoint::Object => {
                let i = choose|i: int| 0 <= i < objects.len() && objects[i] == r;
                assert(list[subjects.len() + i] == r);
            },
        }
    }
}

/// A merge of facts can be undone: what the pre-state captured, put back, gives every
/// fact as it was before. A flag that an earlier merge had set stays set.
pub proof fn law_facts_can_be_restored(
    t: TablesView,
    c: MergeContext,
    confidence: Option<Binary32>,
    x: int,
)
    requires
        captured_from(c, t),
        0 <= x < t.facts.len(),
    ensures
        undone_fact(
            merged_tables(t, c, confidence).facts[x],
            repointed(t.facts, c.m),
            c.doomed,
            c.m,
        ) == t.facts[x],
{
    let list = repointed(t.facts, c.m);
    let f = t.facts[x];
    doomed_iff_captured(t, c, x);
    captured_iff_loses(t, c.m, x, FactEndpoint::Subject);
    captured_iff_loses(t, c.m, x, FactEndpoint::Object);
    if was_repointed(list, f.id, FactEndpoint::Subject) || was_repointed(
        list,
        f.id,
        FactEndpoint::Object,
    ) {
        let i = choose|i: int| 0 <= i < list.len() && (#[trigger] list[i]).fact_id == f.id;
        captured_is_about(t, c.m, x, i);
    }
}

/// The edge is one of the captured ones.
pub open spec fn is_captured_edge(captured: Seq<EdgeSnapshotView>, e: EdgeView) -> bool {
    exists|i: int| 0 <= i < captured.len() && (#[trigger] captured[i]).edge == e
}

/// The edge is a captured one that the merge moved to the keeper.
pub open spec fn is_moved_edge(captured: Seq<EdgeSnapshotView>, e: EdgeView, m: MergeOf) -> bool {
    exists|i: int|
        0 <= i < captured.len() && !(#[trigger] captured[i]).collided && e == (EdgeView {
            entity: m.keeper,
            ..captured[i].edge
        })
}

/// The edge is there once what the pre-state captured is put back: the captured edges
/// are the loser's again, and those that were moved are no longer the keeper's.
pub open spec fn edge_restored(
    after: Seq<EdgeView>,
    captured: Seq<EdgeSnapshotView>,
    m: MergeOf,
    e: EdgeView,
) -> bool {
    is_captured_edge(captured, e) || (after.contains(e) && !is_moved_edge(captured, e, m))
}

proof fn loser_edges_are_exact(edges: Seq<EdgeView>, m: MergeOf, n: nat)
    requires
        n <= edges.len(),
    ensures
        forall|i: int|
            0 <= i < loser_edges(edges, m, n).len() ==> is_edge_capture(
                #[trigger] loser_edges(edges, m, n)[i],
                edges,
                m,
                n,
            ),
        forall|x: int|
            0 <= x < n && (#[trigger] edges[x]).of(m.loser, m.group) ==> loser_edges(
                edges,
                m,
                n,
            ).contains(
                EdgeSnapshotView {
                    edge: edges[x],
                    collided: keeper_has(edges, edges[x].episode_id, m),
                },
            ),
    decreases n,
{
    if n > 0 {
        loser_edges_are_exact(edges, m, (n - 1) as nat);
        let before = loser_edges(edges, m, (n - 1) as nat);
        let all = loser_edges(edges, m, n);
        assert forall|i: int| 0 <= i < all.len() implies is_edge_capture(
            #[trigger] all[i],
            edges,
            m,
            n,
        ) by {
            if i < before.len() {
                assert(is_edge_capture(before[i], edges, m, (n - 1) as nat));
            } else {
                assert(all[i].edge == edges[n - 1]);
            }
        }
        assert forall|x: int| 0 <= x < n && (#[trigger] edges[x]).of(m.loser, m.group) implies
            all.contains(
            EdgeSnapshotView {
                edge: edges[x],
                collided: keeper_has(edges, edges[x].episode_id, m),
            },
        ) by {
            let s = EdgeSnapshotView {
                edge: edges[x],
                collided: keeper_has(edges, edges[x].episode_id, m),
            };
            if x < n - 1 {
                let i = choose|i: int| 0 <= i < before.len() && before[i] == s;
                assert(all[i] == s);
            } else {
                assert(all[before.len() as int] == s);
            }
        }
    }
}

/// The capture is one of the loser's edges among the first `n`.
pub open spec fn is_edge_capture(
    s: EdgeSnapshotView,
    edges: Seq<EdgeView>,
    m: MergeOf,
    n: nat,
) -> bool {
    &&& s.edge.of(m.loser, m.group)
    &&& s.collided == keeper_has(edges, s.edge.episode_id, m)
    &&& exists|x: int| 0 <= x < n && #[trigger] edges[x] == s.edge
}

/// A merge of edges can be undone: what the pre-state captured, put back, gives exactly
/// the edges that were there before, those that had collided among them.
pub proof fn law_edges_can_be_restored(t: TablesView, c: MergeContext, e: EdgeView)
    requires
        captured_from(c, t),
    ensures
        edge_restored(
            merged_edges(t.edges, c.m),
            loser_edges(t.edges, c.m, t.edges.len()),
            c.m,
            e,
        ) <==> t.edges.contains(e),
{
    let m = c.m;
    let captured = loser_edges(t.edges, m, t.edges.len());
    let moved = t.edges.map_values(|e: EdgeView| edge_moved(e, t.edges, m));
    let after = merged_edges(t.edges, m);
    loser_edges_are_exact(t.edges, m, t.edges.len());
    edges_without_are_the_others(moved, m.loser, m.group, e);
    if t.edges.contains(e) {
        let x = choose|x: int| 0 <= x < t.edges.len() && t.edges[x] == e;
        if e.of(m.loser, m.group) {
            let s = EdgeSnapshotView {
                edge: e,
                collided: keeper_has(t.edges, e.episode_id, m),
            };
            let i = choose|i: int| 0 <= i < captured.len() && captured[i] == s;
            assert(captured[i].edge == e);
        } else {
            assert(moved[x] == e);
            assert(moved.contains(e));
            if is_moved_edge(captured, e, m) {
                let i = choose|i: int|
                    0 <= i < captured.len() && !(#[trigger] captured[i]).collided && e == (
                    EdgeView { entity: m.keeper, ..captured[i].edge });
                assert(is_edge_capture(captured[i], t.edges, m, t.edges.len()));
                assert(t.edges[x].of(m.keeper, m.group));
                assert(keeper_has(t.edges, e.episode_id, m));
            }
        }
    }
    if edge_restored(after, captured, m, e) {
        if is_captured_edge(captured, e) {
            let i = choose|i: int| 0 <= i < captured.len() && (#[trigger] captured[i]).edge == e;
            assert(is_edge_capture(captured[i], t.edges, m, t.edges.len()));
        } else {
            let x = choose|x: int| 0 <= x < moved.len() && moved[x] == e;
            assert(moved[x] == edge_moved(t.edges[x], t.edges, m));
            let f = t.edges[x];
            if f.of(m.loser, m.group) && !keeper_has(t.edges, f.episode_id, m) {
                let s = EdgeSnapshotView { edge: f, collided: false };
                let i = choose|i: int| 0 <= i < captured.len() && captured[i] == s;
                assert(!captured[i].collided);
                assert(is_moved_edge(captured, e, m));
            }
            assert(t.edges.contains(f));
        }
    }
}

/// The row is there once what the pre-state captured is put back: the loser's row, and
/// the keeper's with its prior count and confidence.
pub open spec fn entity_restored(
    after: Seq<EntityView>,
    loser: EntityView,
    keeper: EntityView,
    m: MergeOf,
    e: EntityView,
) -> bool {
    ||| e == loser
    ||| exists|g: EntityView| #[trigger]
        after.contains(g) && e == keeper_restored(g, keeper, m)
}

/// A row with the keeper's prior count and confidence, where it is the keeper's.
pub open spec fn keeper_restored(g: EntityView, keeper: EntityView, m: MergeOf) -> EntityView {
    if g.is(m.keeper, m.group) {
        EntityView {
            access_count: keeper.access_count,
            ner_confidence: keeper.ner_confidence,
            ..g
        }
    } else {
        g
    }
}

proof fn entity_row_is_a_row(entities: Seq<EntityView>, id: Seq<char>, group: Seq<char>)
    requires
        entity_row(entities, id, group) is Some,
    ensures
        entities.contains(entity_row(entities, id, group)->0),
        entity_row(entities, id, group)->0.is(id, group),
    decreases entities.len(),
{
    let front = entities.drop_last();
    let e = entity_row(entities, id, group)->0;
    if entity_row(front, id, group) is Some {
        entity_row_is_a_row(front, id, group);
        let i = choose|i: int| 0 <= i < front.len() && front[i] == e;
        assert(entities[i] == e);
    } else {
        assert(entities[entities.len() - 1] == e);
    }
}

/// With unique keys there is only one row of an entity.
proof fn one_row_per_entity(t: TablesView, a: EntityView, b: EntityView)
    requires
        keys_unique(t),
        t.entities.contains(a),
        t.entities.contains(b),
        a.is(b.id, b.group_id),
    ensures
        a == b,
{
    let i = choose|i: int| 0 <= i < t.entities.len() && t.entities[i] == a;
    let j = choose|j: int| 0 <= j < t.entities.len() && t.entities[j] == b;
    if i < j {
        assert(!t.entities[i].is(t.entities[j].id, t.entities[j].group_id));
    } else if j < i {
        assert(!t.entities[j].is(t.entities[i].id, t.entities[i].group_id));
    }
}

/// A merge of entities can be undone: the captured row of the loser and the captured
/// values of the keeper, put back, give exactly the rows that were there before.
pub proof fn law_entities_can_be_restored(
    t: TablesView,
    c: MergeContext,
    confidence: Option<Binary32>,
    e: EntityView,
)
    requires
        captured_from(c, t),
        entity_row(t.entities, c.m.loser, c.m.group) is Some,
        entity_row(t.entities, c.m.keeper, c.m.group) is Some,
    ensures
        entity_restored(
            merged_tables(t, c, confidence).entities,
            entity_row(t.entities, c.m.loser, c.m.group)->0,
            entity_row(t.entities, c.m.keeper, c.m.group)->0,
            c.m,
            e,
        ) <==> t.entities.contains(e),
{
    let m = c.m;
    let loser = entity_row(t.entities, m.loser, m.group)->0;
    let keeper = entity_row(t.entities, m.keeper, m.group)->0;
    entity_row_is_a_row(t.entities, m.loser, m.group);
    entity_row_is_a_row(t.entities, m.keeper, m.group);
    let rows = t.entities.map_values(|e: EntityView| merged_entity(e, c, confidence));
    let after = merged_tables(t, c, confidence).entities;
    if t.entities.contains(e) {
        if e.is(m.loser, m.group) {
            one_row_per_entity(t, e, loser);
        } else {
            let x = choose|x: int| 0 <= x < t.entities.len() && t.entities[x] == e;
            let g = merged_entity(e, c, confidence);
            assert(rows[x] == g);
            assert(rows.contains(g));
            entities_without_are_the_others(rows, m.loser, m.group, g);
            assert(after.contains(g));
            if e.is(m.keeper, m.group) {
                one_row_per_entity(t, e, keeper);
            }
            assert(e == keeper_restored(g, keeper, m));
        }
    }
    if entity_restored(after, loser, keeper, m, e) && e != loser {
        let g = choose|g: EntityView| #[trigger]
            after.contains(g) && e == keeper_restored(g, keeper, m);
        entities_without_are_the_others(rows, m.loser, m.group, g);
        let x = choose|x: int| 0 <= x < rows.len() && rows[x] == g;
        let f = t.entities[x];
        assert(g == merged_entity(f, c, confidence));
        assert(t.entities.contains(f));
        if f.is(m.keeper, m.group) {
            one_row_per_entity(t, f, keeper);
        }
        assert(e == f);
    }
}

/// What becomes of a fact in a merge, column by column: an endpoint that was the loser is the
/// keeper, every other one is what it was, live or expired. The flag is set exactly on facts
/// that were re-pointed, and the fact is expired exactly when it was or when the merge makes
/// it relate the keeper to itself anew.
pub proof fn law_facts_move_to_the_keeper(
    t: TablesView,
    c: MergeContext,
    confidence: Option<Binary32>,
    x: int,
)
    requires
        captured_from(c, t),
        0 <= x < t.facts.len(),
    ensures
        ({
            let before = t.facts[x];
            let after = merged_tables(t, c, confidence).facts[x];
            let from = before.subject == c.m.loser && before.subject_group == c.m.group;
            let to = before.object == Some(c.m.loser) && before.object_group == Some(c.m.group);
            &&& merged_tables(t, c, confidence).facts.len() == t.facts.len()
            &&& after.id == before.id
            &&& after.subject_group == before.subject_group
            &&& after.object_group == before.object_group
            &&& from ==> after.subject == c.m.keeper
            &&& !from ==> after.subject == before.subject
            &&& to ==> after.object == Some(c.m.keeper)
            &&& !to ==> after.object == before.object
            &&& from || to ==> after.inert == 1
            &&& !from && !to ==> after.inert == before.inert
            &&& after.expired <==> before.expired || ((from || to) && after.subject == c.m.keeper
                && after.object == Some(c.m.keeper) && after.subject_group == c.m.group
                && after.object_group == Some(c.m.group))
        }),
{
    doomed_iff_captured(t, c, x);
}

/// The places of the live facts of the namespace that run between the two entities, or from
/// the loser to itself.
pub open spec fn collapsing(facts: Seq<FactView>, m: MergeOf) -> spec_fn(int) -> bool {
    |k: int|
        {
            let f = facts[k];
            &&& !f.expired
            &&& f.subject_group == m.group && f.object_group == Some(m.group)
            &&& f.subject == m.loser && (f.object == Some(m.keeper) || f.object == Some(m.loser))
                || f.subject == m.keeper && f.object == Some(m.loser)
        }
}

/// The facts that a merge collapses are exactly those, in the order of the rows.
pub proof fn law_collapsing_facts_are_found(facts: Seq<FactView>, m: MergeOf)
    ensures
        selects(
            doomed_ids(facts, m),
            facts.len(),
            collapsing(facts, m),
            |k: int| facts[k].id,
        ),
{
    doomed_are_selected(facts, m, facts.len());
    assert(facts.take(facts.len() as int) =~= facts);
}

proof fn doomed_are_selected(facts: Seq<FactView>, m: MergeOf, n: nat)
    requires
        n <= facts.len(),
    ensures
        selects(
            doomed_ids(facts.take(n as int), m),
            n,
            collapsing(facts, m),
            |k: int| facts[k].id,
        ),
    decreases n,
{
    let keep = collapsing(facts, m);
    let value = |k: int| facts[k].id;
    if n == 0 {
        assert(facts.take(0) =~= Seq::<FactView>::empty());
        selects_from_none(keep, value);
    } else {
        doomed_are_selected(facts, m, (n - 1) as nat);
        assert(facts.take(n as int).drop_last() =~= facts.take(n - 1));
        assert(facts.take(n as int).last() == facts[n - 1]);
        selects_one_more(
            doomed_ids(facts.take(n - 1), m),
            doomed_ids(facts.take(n as int), m),
            (n - 1) as nat,
            keep,
            value,
        );
    }
}

/// What a merge re-points is captured whole: first the facts whose subject is the loser, then
/// those whose object it is, each with the flag it had.
pub proof fn law_repointed_facts_are_captured(facts: Seq<FactView>, m: MergeOf)
    ensures
        ({
            let subjects = repointed_on(facts, FactEndpoint::Subject, m);
            let objects = repointed_on(facts, FactEndpoint::Object, m);
            &&& repointed(facts, m) == subjects + objects
            &&& selects(
                subjects,
                facts.len(),
                |k: int| facts[k].subject == m.loser && facts[k].subject_group == m.group,
                |k: int|
                    RepointedFact {
                        fact_id: facts[k].id,
                        endpoint: FactEndpoint::Subject,
                        prior_corroboration_inert: facts[k].inert,
                    },
            )
            &&& selects(
                objects,
                facts.len(),
                |k: int| facts[k].object == Some(m.loser) && facts[k].object_group == Some(m.group),
                |k: int|
                    RepointedFact {
                        fact_id: facts[k].id,
                        endpoint: FactEndpoint::Object,
                        prior_corroboration_inert: facts[k].inert,
                    },
            )
        }),
{
    subjects_are_selected(facts, m, facts.len());
    objects_are_selected(facts, m, facts.len());
    assert(facts.take(facts.len() as int) =~= facts);
}

proof fn subjects_are_selected(facts: Seq<FactView>, m: MergeOf, n: nat)
    requires
        n <= facts.len(),
    ensures
        selects(
            repointed_on(facts.take(n as int), FactEndpoint::Subject, m),
            n,
            |k: int| facts[k].subject == m.loser && facts[k].subject_group == m.group,
            |k: int|
                RepointedFact {
                    fact_id: facts[k].id,
                    endpoint: FactEndpoint::Subject,
                    prior_corroboration_inert: facts[k].inert,
                },
        ),
    decreases n,
{
    let keep = |k: int| facts[k].subject == m.loser && facts[k].subject_group == m.group;
    let value = |k: int|
        RepointedFact {
            fact_id: facts[k].id,
            endpoint: FactEndpoint::Subject,
            prior_corroboration_inert: facts[k].inert,
        };
    if n == 0 {
        assert(facts.take(0) =~= Seq::<FactView>::empty());
        selects_from_none(keep, value);
    } else {
        subjects_are_selected(facts, m, (n - 1) as nat);
        assert(facts.take(n as int).drop_last() =~= facts.take(n - 1));
        assert(facts.take(n as int).last() == facts[n - 1]);
        selects_one_more(
            repointed_on(facts.take(n - 1), FactEndpoint::Subject, m),
            repointed_on(facts.take(n as int), FactEndpoint::Subject, m),
            (n - 1) as nat,
            keep,
            value,
        );
    }
}

proof fn objects_are_selected(facts: Seq<FactView>, m: MergeOf, n: nat)
    requires
        n <= facts.len(),
    ensures
        selects(
            repointed_on(facts.take(n as int), FactEndpoint::Object, m),
            n,
            |k: int| facts[k].object == Some(m.loser) && facts[k].object_group == Some(m.group),
            |k: int|
                RepointedFact {
                    fact_id: facts[k].id,
                    endpoint: FactEndpoint::Object,
                    prior_corroboration_inert: facts[k].inert,
                },
        ),
    decreases n,
{
    let keep = |k: int|
        facts[k].object == Some(m.loser) && facts[k].object_group == Some(m.group);
    let value = |k: int|
        RepointedFact {
            fact_id: facts[k].id,
            endpoint: FactEndpoint::Object,
            prior_corroboration_inert: facts[k].inert,
        };
    if n == 0 {
        assert(facts.take(0) =~= Seq::<FactView>::empty());
        selects_from_none(keep, value);
    } else {
        objects_are_selected(facts, m, (n - 1) as nat);
        assert(facts.take(n as int).drop_last() =~= facts.take(n - 1));
        assert(facts.take(n as int).last() == facts[n - 1]);
        selects_one_more(
            repointed_on(facts.take(n - 1), FactEndpoint::Object, m),
            repointed_on(facts.take(n as int), FactEndpoint::Object, m),
            (n - 1) as nat,
            keep,
            value,
        );
    }
}

/// Every edge of the loser is captured with all of its columns, and marked as colliding
/// exactly when the keeper has an edge of the same episode.
pub proof fn law_loser_edges_are_captured(edges: Seq<EdgeView>, m: MergeOf, n: nat)
    requires
        n <= edges.len(),
    ensures
        selects(
            loser_edges(edges, m, n),
            n,
            |k: int| edges[k].entity == m.loser && edges[k].group == m.group,
            |k: int|
                EdgeSnapshotView {
                    edge: edges[k],
                    collided: linked(edges, m.keeper, m.group, edges[k].episode_id),
                },
        ),
    decreases n,
{
    let keep = |k: int| edges[k].entity == m.loser && edges[k].group == m.group;
    let value = |k: int|
        EdgeSnapshotView {
            edge: edges[k],
            collided: linked(edges, m.keeper, m.group, edges[k].episode_id),
        };
    if n == 0 {
        selects_from_none(keep, value);
    } else {
        law_loser_edges_are_captured(edges, m, (n - 1) as nat);
        linked_is_had(edges, m, edges[n - 1].episode_id);
        selects_one_more(
            loser_edges(edges, m, (n - 1) as nat),
            loser_edges(edges, m, n),
            (n - 1) as nat,
            keep,
            value,
        );
    }
}

proof fn linked_is_had(edges: Seq<EdgeView>, m: MergeOf, episode_id: i64)
    ensures
        linked(edges, m.keeper, m.group, episode_id) <==> keeper_has(edges, episode_id, m),
{
    if linked(edges, m.keeper, m.group, episode_id) {
        let e = choose|e: EdgeView| #[trigger]
            edges.contains(e) && e.of(m.keeper, m.group) && e.episode_id == episode_id;
        let i = choose|i: int| 0 <= i < edges.len() && edges[i] == e;
        assert(edges[i].of(m.keeper, m.group));
    }
    if keeper_has(edges, episode_id, m) {
        let i = choose|i: int|
            0 <= i < edges.len() && (#[trigger] edges[i]).of(m.keeper, m.group)
                && edges[i].episode_id == episode_id;
        assert(edges.contains(edges[i]));
    }
}

/// The script of a whole merge, run on the tables, leaves no fact of the namespace that has
/// the loser at either end, expired ones included, no edge of it and no row.
pub proof fn law_script_leaves_nothing_at_the_loser(
    t: TablesView,
    c: MergeContext,
    access_count: i64,
    confidence: Option<Binary32>,
    audited: bool,
)
    requires
        c.m.loser != c.m.keeper,
        c.doomed.len() <= usize::MAX,
        c.access_count == access_count,
    ensures
        ({
            let after = tables_after_all(
                t,
                merge_script(c.doomed.len() as usize, access_count, confidence, audited),
                c,
            );
            &&& forall|x: int|
                0 <= x < after.facts.len() && (#[trigger] after.facts[x]).subject_group == c.m.group
                    ==> after.facts[x].subject != c.m.loser
            &&& forall|x: int|
                0 <= x < after.facts.len() && (#[trigger] after.facts[x]).object_group == Some(
                    c.m.group,
                ) ==> after.facts[x].object != Some(c.m.loser)
            &&& forall|e: EdgeView| #[trigger]
                after.edges.contains(e) && e.group == c.m.group ==> e.entity != c.m.loser
            &&& forall|e: EntityView| #[trigger]
                after.entities.contains(e) && e.group_id == c.m.group ==> e.id != c.m.loser
        }),
{
    law_script_merges(t, c, access_count, confidence, audited);
    law_nothing_points_at_the_loser(t, c, confidence);
    let after = merged_tables(t, c, confidence);
    assert forall|x: int|
        0 <= x < after.facts.len() && (#[trigger] after.facts[x]).subject_group == c.m.group implies
        after.facts[x].subject != c.m.loser by {
        assert(!after.facts[x].subject_is(c.m.loser, c.m.group));
    }
    assert forall|x: int|
        0 <= x < after.facts.len() && (#[trigger] after.facts[x]).object_group == Some(c.m.group)
        implies after.facts[x].object != Some(c.m.loser) by {
        assert(!after.facts[x].object_is(c.m.loser, c.m.group));
    }
}

/// A recorded merge can be undone from its pre-state alone: put back, it gives every fact,
/// every edge and every entity as they were, and nothing besides.
pub proof fn law_pre_state_undoes_the_merge(
    p: EntityMergePreState,
    t: TablesView,
    c: MergeContext,
    confidence: Option<Binary32>,
)
    requires
        captured_from(c, t),
        captures(p, t, c.m),
    ensures
        ({
            let after = merged_tables(t, c, confidence);
            let edges = p.episodic_edges@.map_values(|e: EpisodicEdgeSnapshot| e@);
            &&& forall|x: int|
                0 <= x < t.facts.len() ==> undone_fact(
                    #[trigger] after.facts[x],
                    p.repointed_facts@,
                    p.self_loops_expired@,
                    c.m,
                ) == t.facts[x]
            &&& forall|e: EdgeView| #[trigger]
                edge_restored(after.edges, edges, c.m, e) <==> t.edges.contains(e)
            &&& forall|loser: EntityView, keeper: EntityView, e: EntityView|
                captures_row(p.loser_entity_row, loser) && keeper.access_count
                    == p.keeper_pre.access_count && keeper.ner_confidence
                    == p.keeper_pre.ner_confidence ==> (#[trigger] entity_restored(
                    after.entities,
                    loser,
                    keeper,
                    c.m,
                    e,
                ) <==> t.entities.contains(e))
        }),
{
    let after = merged_tables(t, c, confidence);
    let edges = p.episodic_edges@.map_values(|e: EpisodicEdgeSnapshot| e@);
    assert forall|x: int| 0 <= x < t.facts.len() implies undone_fact(
        #[trigger] after.facts[x],
        p.repointed_facts@,
        p.self_loops_expired@,
        c.m,
    ) == t.facts[x] by {
        law_facts_can_be_restored(t, c, confidence, x);
    }
    assert forall|e: EdgeView| #[trigger] edge_restored(after.edges, edges, c.m, e)
        <==> t.edges.contains(e) by {
        law_edges_can_be_restored(t, c, e);
    }
    assert forall|loser: EntityView, keeper: EntityView, e: EntityView|
        captures_row(p.loser_entity_row, loser) && keeper.access_count == p.keeper_pre.access_count
            && keeper.ner_confidence == p.keeper_pre.ner_confidence implies (
    #[trigger] entity_restored(after.entities, loser, keeper, c.m, e) <==> t.entities.contains(
        e,
    )) by {
        let own = entity_row(t.entities, c.m.keeper, c.m.group)->0;
        crate::canonicalization::snapshot::law_captured_row_loses_nothing(
            p.loser_entity_row,
            loser,
            entity_row(t.entities, c.m.loser, c.m.group)->0,
        );
        law_entities_can_be_restored(t, c, confidence, e);
        assert forall|g: EntityView| #[trigger] keeper_restored(g, keeper, c.m) == keeper_restored(
            g,
            own,
            c.m,
        ) by {}
        if entity_restored(after.entities, loser, keeper, c.m, e) && e != loser {
            let g = choose|g: EntityView| #[trigger]
                after.entities.contains(g) && e == keeper_restored(g, keeper, c.m);
            assert(e == keeper_restored(g, own, c.m));
        }
        if entity_restored(after.entities, loser, own, c.m, e) && e != loser {
            let g = choose|g: EntityView| #[trigger]
                after.entities.contains(g) && e == keeper_restored(g, own, c.m);
            assert(e == keeper_restored(g, keeper, c.m));
        }
    }
}

}
