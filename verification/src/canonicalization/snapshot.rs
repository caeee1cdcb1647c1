//! The state that a merge destroys, captured before it does.
//!
//! The capture is what makes a merge reversible: the loser's row, the keeper's values
//! before they are overwritten, every re-pointed endpoint with its prior flag, every
//! edge of the loser, and the facts that the merge expires. A merge whose two entities
//! cannot both be captured is refused.

use vstd::prelude::*;
use vstd::string::StringExecFns;
use crate::canonicalization::base64_text::{base64_of, encode_base64};
use crate::canonicalization::pairs::{sorted_ids, sorted_pair};
use crate::canonicalization::tables::{
    column_is, doomed_ids, self_loop_fact_ids, text_column, EdgeRow, EdgeView, EntityRow,
    EntityView, FactRow, FactView, MergeOf, MergeTables, TablesView,
};
use crate::error::Error;
use crate::ieee::{Binary32, Binary64};
use crate::text::{owned, same_text};

verus! {

/// The loser's row, with the vector as base64 text.
#[derive(Debug)]
pub struct LoserEntityRow {
    pub id: String,
    pub group_id: String,
    pub properties: Option<String>,
    pub embedding_b64: Option<String>,
    pub recorded_at: String,
    pub updated_at: Option<String>,
    pub access_count: i64,
    pub entity_type_id: i64,
    pub entity_type_source: Option<String>,
    pub entity_type_assigned_at: Option<String>,
    pub ner_confidence: Option<Binary64>,
}

/// The keeper's values that the merge overwrites.
#[derive(Debug)]
pub struct KeeperPre {
    pub id: String,
    pub access_count: i64,
    pub ner_confidence: Option<Binary64>,
}

/// An endpoint of a fact.
#[derive(Debug, Clone, Copy, PartialEq, Eq, Structural)]
pub enum FactEndpoint {
    Subject,
    Object,
}

/// A fact endpoint that the merge re-points, with the flag that the merge sets. A fact
/// from the loser to itself is captured twice, once for each endpoint.
#[derive(Debug, Clone, Copy, PartialEq, Eq, Structural)]
pub struct RepointedFact {
    pub fact_id: i64,
    pub endpoint: FactEndpoint,
    pub prior_corroboration_inert: i64,
}

/// The columns of an edge besides its key.
#[derive(Debug)]
pub struct EpisodicEdgeCols {
    pub entity_id: String,
    pub role: String,
    pub recorded_at: String,
}

/// An edge of the loser. When the keeper already has an edge of the same episode, the
/// two collide: the merge drops this one; otherwise it re-points it.
#[derive(Debug)]
pub struct EpisodicEdgeSnapshot {
    pub episode_id: i64,
    pub entity_group_id: String,
    pub collided: bool,
    pub cols: EpisodicEdgeCols,
}

/// Everything that undoing the merge needs.
#[derive(Debug)]
pub struct EntityMergePreState {
    pub loser_entity_row: LoserEntityRow,
    pub keeper_pre: KeeperPre,
    pub repointed_facts: Vec<RepointedFact>,
    pub episodic_edges: Vec<EpisodicEdgeSnapshot>,
    /// Facts that the merge collapses onto the keeper and expires.
    pub self_loops_expired: Vec<i64>,
}

/// What led to the merge.
#[derive(Debug)]
pub struct MergeInputs {
    /// The lesser of the two ids.
    pub pair_lo: String,
    /// The greater of the two ids.
    pub pair_hi: String,
    pub keeper: String,
    pub loser: String,
    /// The pass that asked for the merge.
    pub site: String,
    pub cosine: Option<Binary32>,
    /// Whether structure corroborated the merge.
    pub structural_signal: bool,
}

/// What is recorded of a merge before it happens.
#[derive(Debug)]
pub struct MergeSnapshot {
    pub group_id: String,
    pub pre_state: EntityMergePreState,
    pub inputs: MergeInputs,
}

/// The first row of entity `id` in namespace `group`.
pub open spec fn entity_row(entities: Seq<EntityView>, id: Seq<char>, group: Seq<char>) -> Option<
    EntityView,
>
    decreases entities.len(),
{
    if entities.len() == 0 {
        None
    } else {
        match entity_row(entities.drop_last(), id, group) {
            Some(e) => Some(e),
            None => if entities.last().is(id, group) {
                Some(entities.last())
            } else {
                None
            },
        }
    }
}

/// The captured row says what the entity's row says.
pub open spec fn captures_row(row: LoserEntityRow, e: EntityView) -> bool {
    &&& row.id@ == e.id
    &&& row.group_id@ == e.group_id
    &&& text_column(row.properties) == e.properties
    &&& text_column(row.embedding_b64) == (match e.embedding {
        Some(bytes) => Some(base64_of(bytes)),
        None => None,
    })
    &&& row.recorded_at@ == e.recorded_at
    &&& text_column(row.updated_at) == e.updated_at
    &&& row.access_count == e.access_count
    &&& row.entity_type_id == e.entity_type_id
    &&& text_column(row.entity_type_source) == e.entity_type_source
    &&& text_column(row.entity_type_assigned_at) == e.entity_type_assigned_at
    &&& row.ner_confidence == e.ner_confidence
}

/// The endpoint of `f` is the loser.
pub open spec fn endpoint_loses(f: FactView, endpoint: FactEndpoint, m: MergeOf) -> bool {
    match endpoint {
        FactEndpoint::Subject => f.subject_is(m.loser, m.group),
        FactEndpoint::Object => f.object_is(m.loser, m.group),
    }
}

/// The endpoints of one side that the merge re-points, in the order of the rows.
pub open spec fn repointed_on(
    facts: Seq<FactView>,
    endpoint: FactEndpoint,
    m: MergeOf,
) -> Seq<RepointedFact>
    decreases facts.len(),
{
    if facts.len() == 0 {
        seq![]
    } else {
        let before = repointed_on(facts.drop_last(), endpoint, m);
        let f = facts.last();
        if endpoint_loses(f, endpoint, m) {
            before.push(
                RepointedFact { fact_id: f.id, endpoint, prior_corroboration_inert: f.inert },
            )
        } else {
            before
        }
    }
}

/// Every endpoint that the merge re-points: subjects first, then objects.
pub open spec fn repointed(facts: Seq<FactView>, m: MergeOf) -> Seq<RepointedFact> {
    repointed_on(facts, FactEndpoint::Subject, m) + repointed_on(facts, FactEndpoint::Object, m)
}

/// The keeper has an edge of the episode.
pub open spec fn keeper_has(edges: Seq<EdgeView>, episode_id: i64, m: MergeOf) -> bool {
    exists|i: int|
        0 <= i < edges.len() && (#[trigger] edges[i]).of(m.keeper, m.group) && edges[i].episode_id
            == episode_id
}

/// What an [`EpisodicEdgeSnapshot`] says.
pub struct EdgeSnapshotView {
    pub edge: EdgeView,
    pub collided: bool,
}

impl View for EpisodicEdgeSnapshot {
    type V = EdgeSnapshotView;

    open spec fn view(&self) -> EdgeSnapshotView {
        EdgeSnapshotView {
            edge: EdgeView {
                episode_id: self.episode_id,
                entity: self.cols.entity_id@,
                group: self.entity_group_id@,
                role: self.cols.role@,
                recorded_at: self.cols.recorded_at@,
            },
            collided: self.collided,
        }
    }
}

/// The edges of the loser among the first `n`, in the order of the rows, each with
/// whether the keeper has an edge of its episode.
pub open spec fn loser_edges(edges: Seq<EdgeView>, m: MergeOf, n: nat) -> Seq<EdgeSnapshotView>
    decreases n,
{
    if n == 0 {
        seq![]
    } else {
        let before = loser_edges(edges, m, (n - 1) as nat);
        let e = edges[n - 1];
        if e.of(m.loser, m.group) {
            before.push(
                EdgeSnapshotView { edge: e, collided: keeper_has(edges, e.episode_id, m) },
            )
        } else {
            before
        }
    }
}

/// The pre-state captures the tables.
pub open spec fn captures(p: EntityMergePreState, t: TablesView, m: MergeOf) -> bool {
    let loser = entity_row(t.entities, m.loser, m.group);
    let keeper = entity_row(t.entities, m.keeper, m.group);
    &&& loser is Some
    &&& keeper is Some
    &&& captures_row(p.loser_entity_row, loser->0)
    &&& p.keeper_pre.id@ == m.keeper
    &&& p.keeper_pre.access_count == keeper->0.access_count
    &&& p.keeper_pre.ner_confidence == keeper->0.ner_confidence
    &&& p.repointed_facts@ == repointed(t.facts, m)
    &&& p.episodic_edges@.map_values(|e: EpisodicEdgeSnapshot| e@) == loser_edges(
        t.edges,
        m,
        t.edges.len(),
    )
    &&& p.self_loops_expired@ == doomed_ids(t.facts, m)
}

/// Message of a merge whose entity is not there.
pub open spec fn missing_entity(role: Seq<char>, id: Seq<char>, group: Seq<char>) -> Seq<char> {
    "reversible-mutations snapshot: "@ + role + " entity `"@ + id + "` not found in namespace `"@
        + group + "` \u{2014} cannot capture a reversible pre-state for this merge"@
}

/// The refusal of a merge whose entity is not there.
fn missing(role: &str, id: &String, group_id: &String) -> (r: Error)
    ensures
        r is Other,
        r.text() == missing_entity(role@, id@, group_id@),
{
    let mut message: String = owned("reversible-mutations snapshot: ");
    message.append(role);
    message.append(" entity `");
    message.append(id.as_str());
    message.append("` not found in namespace `");
    message.append(group_id.as_str());
    message.append("` \u{2014} cannot capture a reversible pre-state for this merge");
    Error::Other(message)
}

/// The row of entity `id` in namespace `group_id`.
fn find_entity<'a>(entities: &'a Vec<EntityRow>, id: &String, group_id: &String) -> (r: Option<
    &'a EntityRow,
>)
    ensures
        (match r {
            Some(e) => Some(e@),
            None => None,
        }) == entity_row(entities@.map_values(|e: EntityRow| e@), id@, group_id@),
{
    let ghost rows = entities@.map_values(|e: EntityRow| e@);
    let mut i: usize = 0;
    assert(rows.take(0) =~= Seq::<EntityView>::empty());
    while i < entities.len()
        invariant
            i <= entities.len(),
            rows == entities@.map_values(|e: EntityRow| e@),
            entity_row(rows.take(i as int), id@, group_id@) is None,
        decreases entities.len() - i,
    {
        let e = &entities[i];
        proof {
            assert(rows.take(i + 1).drop_last() =~= rows.take(i as int));
            assert(rows.take(i + 1).last() == e@);
        }
        if same_text(&e.id, id) && same_text(&e.group_id, group_id) {
            proof {
                entity_row_of_prefix(rows, i + 1, id@, group_id@);
            }
            return Some(e);
        }
        i = i + 1;
    }
    assert(rows.take(i as int) =~= rows);
    None
}

/// A row found among the first rows is the row found among all.
proof fn entity_row_of_prefix(rows: Seq<EntityView>, n: int, id: Seq<char>, group: Seq<char>)
    requires
        0 <= n <= rows.len(),
        entity_row(rows.take(n), id, group) is Some,
    ensures
        entity_row(rows, id, group) == entity_row(rows.take(n), id, group),
    decreases rows.len() - n,
{
    if n == rows.len() {
        assert(rows.take(n) =~= rows);
    } else {
        assert(rows.take(n + 1).drop_last() =~= rows.take(n));
        entity_row_of_prefix(rows, n + 1, id, group);
    }
}

/// Captures the loser's row.
fn capture_row(e: &EntityRow) -> (r: LoserEntityRow)
    ensures
        captures_row(r, e@),
{
    let embedding_b64 = match &e.embedding {
        Some(bytes) => Some(encode_base64(bytes)),
        None => None,
    };
    LoserEntityRow {
        id: e.id.clone(),
        group_id: e.group_id.clone(),
        properties: e.properties.clone(),
        embedding_b64,
        recorded_at: e.recorded_at.clone(),
        updated_at: e.updated_at.clone(),
        access_count: e.access_count,
        entity_type_id: e.entity_type_id,
        entity_type_source: e.entity_type_source.clone(),
        entity_type_assigned_at: e.entity_type_assigned_at.clone(),
        ner_confidence: e.ner_confidence,
    }
}

/// Captures the endpoints of one side that the merge re-points, behind `out`.
fn capture_repointed(
    facts: &Vec<FactRow>,
    endpoint: FactEndpoint,
    loser_id: &String,
    group_id: &String,
    out: &mut Vec<RepointedFact>,
    Ghost(m): Ghost<MergeOf>,
)
    requires
        m.loser == loser_id@,
        m.group == group_id@,
    ensures
        final(out)@ == old(out)@ + repointed_on(
            facts@.map_values(|f: FactRow| f@),
            endpoint,
            m,
        ),
{
    let ghost rows = facts@.map_values(|f: FactRow| f@);
    let ghost before = out@;
    let mut i: usize = 0;
    assert(rows.take(0) =~= Seq::<FactView>::empty());
    assert(before + Seq::<RepointedFact>::empty() =~= before);
    while i < facts.len()
        invariant
            i <= facts.len(),
            m.loser == loser_id@,
            m.group == group_id@,
            rows == facts@.map_values(|f: FactRow| f@),
            out@ == before + repointed_on(rows.take(i as int), endpoint, m),
        decreases facts.len() - i,
    {
        let f = &facts[i];
        proof {
            assert(rows.take(i + 1).drop_last() =~= rows.take(i as int));
            assert(rows.take(i + 1).last() == f@);
        }
        let loses = match endpoint {
            FactEndpoint::Subject => same_text(&f.subject_id, loser_id) && same_text(
                &f.subject_group_id,
                group_id,
            ),
            FactEndpoint::Object => column_is(&f.object_id, loser_id) && column_is(
                &f.object_group_id,
                group_id,
            ),
        };
        if loses {
            out.push(
                RepointedFact {
                    fact_id: f.id,
                    endpoint,
                    prior_corroboration_inert: f.corroboration_inert,
                },
            );
            assert(out@ =~= before + repointed_on(rows.take(i + 1), endpoint, m));
        }
        i = i + 1;
    }
    assert(rows.take(i as int) =~= rows);
}

/// Whether the keeper has an edge of the episode.
fn keeper_has_edge(
    edges: &Vec<EdgeRow>,
    episode_id: i64,
    keeper_id: &String,
    group_id: &String,
    Ghost(m): Ghost<MergeOf>,
) -> (r: bool)
    requires
        m.keeper == keeper_id@,
        m.group == group_id@,
    ensures
        r == keeper_has(edges@.map_values(|e: EdgeRow| e@), episode_id, m),
{
    let ghost rows = edges@.map_values(|e: EdgeRow| e@);
    let mut i: usize = 0;
    while i < edges.len()
        invariant
            i <= edges.len(),
            m.keeper == keeper_id@,
            m.group == group_id@,
            rows == edges@.map_values(|e: EdgeRow| e@),
            forall|x: int|
                0 <= x < i ==> !((#[trigger] rows[x]).of(m.keeper, m.group) && rows[x].episode_id
                    == episode_id),
        decreases edges.len() - i,
    {
        let e = &edges[i];
        assert(rows[i as int] == e@);
        if e.episode_id == episode_id && same_text(&e.entity_id, keeper_id) && same_text(
            &e.entity_group_id,
            group_id,
        ) {
            return true;
        }
        i = i + 1;
    }
    false
}

/// Captures the loser's edges.
fn capture_edges(
    edges: &Vec<EdgeRow>,
    loser_id: &String,
    keeper_id: &String,
    group_id: &String,
    Ghost(m): Ghost<MergeOf>,
) -> (r: Vec<EpisodicEdgeSnapshot>)
    requires
        m.loser == loser_id@,
        m.keeper == keeper_id@,
        m.group == group_id@,
    ensures
        r@.map_values(|e: EpisodicEdgeSnapshot| e@) == loser_edges(
            edges@.map_values(|e: EdgeRow| e@),
            m,
            edges@.len(),
        ),
{
    let ghost rows = edges@.map_values(|e: EdgeRow| e@);
    let mut out: Vec<EpisodicEdgeSnapshot> = Vec::new();
    let mut i: usize = 0;
    assert(out@.map_values(|e: EpisodicEdgeSnapshot| e@) =~= loser_edges(rows, m, 0));
    while i < edges.len()
        invariant
            i <= edges.len(),
            m.loser == loser_id@,
            m.keeper == keeper_id@,
            m.group == group_id@,
            rows == edges@.map_values(|e: EdgeRow| e@),
            out@.map_values(|e: EpisodicEdgeSnapshot| e@) == loser_edges(rows, m, i as nat),
        decreases edges.len() - i,
    {
        let e = &edges[i];
        assert(rows[i as int] == e@);
        if same_text(&e.entity_id, loser_id) && same_text(&e.entity_group_id, group_id) {
            let collided = keeper_has_edge(edges, e.episode_id, keeper_id, group_id, Ghost(m));
            let ghost before = out@;
            let captured = EpisodicEdgeSnapshot {
                episode_id: e.episode_id,
                entity_group_id: e.entity_group_id.clone(),
                collided,
                cols: EpisodicEdgeCols {
                    entity_id: e.entity_id.clone(),
                    role: e.role.clone(),
                    recorded_at: e.recorded_at.clone(),
                },
            };
            out.push(captured);
            assert(out@.map_values(|e: EpisodicEdgeSnapshot| e@) =~= before.map_values(
                |e: EpisodicEdgeSnapshot| e@,
            ).push(captured@));
        }
        i = i + 1;
    }
    out
}

/// Captures everything that merging `loser_id` into `keeper_id` in namespace `group_id`
/// destroys. The merge is refused when one of the two entities is not there; the loser
/// is looked for first.
pub fn snapshot_merge_pre_state(
    tables: &MergeTables,
    loser_id: &String,
    keeper_id: &String,
    group_id: &String,
    site: &str,
    cosine: Option<Binary32>,
    structural_signal: bool,
) -> (r: Result<MergeSnapshot, Error>)
    ensures
        ({
            let m = MergeOf { loser: loser_id@, keeper: keeper_id@, group: group_id@ };
            let loser = entity_row(tables@.entities, m.loser, m.group);
            let keeper = entity_row(tables@.entities, m.keeper, m.group);
            match r {
                Ok(s) => {
                    &&& s.group_id@ == group_id@
                    &&& captures(s.pre_state, tables@, m)
                    &&& (s.inputs.pair_lo@, s.inputs.pair_hi@) == sorted_ids(loser_id@, keeper_id@)
                    &&& s.inputs.keeper@ == keeper_id@
                    &&& s.inputs.loser@ == loser_id@
                    &&& s.inputs.site@ == site@
                    &&& s.inputs.cosine == cosine
                    &&& s.inputs.structural_signal == structural_signal
                },
                Err(e) => {
                    &&& e is Other
                    &&& loser is None ==> e.text() == missing_entity(
                        "loser"@,
                        loser_id@,
                        group_id@,
                    )
                    &&& loser is Some ==> keeper is None && e.text() == missing_entity(
                        "keeper"@,
                        keeper_id@,
                        group_id@,
                    )
                },
            }
        }),
{
    let ghost m = MergeOf { loser: loser_id@, keeper: keeper_id@, group: group_id@ };
    let loser = match find_entity(&tables.entities, loser_id, group_id) {
        Some(e) => e,
        None => {
            return Err(missing("loser", loser_id, group_id));
        },
    };
    let keeper = match find_entity(&tables.entities, keeper_id, group_id) {
        Some(e) => e,
        None => {
            return Err(missing("keeper", keeper_id, group_id));
        },
    };
    let mut repointed_facts: Vec<RepointedFact> = Vec::new();
    capture_repointed(
        &tables.facts,
        FactEndpoint::Subject,
        loser_id,
        group_id,
        &mut repointed_facts,
        Ghost(m),
    );
    capture_repointed(
        &tables.facts,
        FactEndpoint::Object,
        loser_id,
        group_id,
        &mut repointed_facts,
        Ghost(m),
    );
    assert(repointed_facts@ =~= repointed(tables@.facts, m));
    let episodic_edges = capture_edges(&tables.edges, loser_id, keeper_id, group_id, Ghost(m));
    let self_loops_expired = self_loop_fact_ids(&tables.facts, loser_id, keeper_id, group_id);
    let (pair_lo, pair_hi) = sorted_pair(loser_id, keeper_id);
    Ok(
        MergeSnapshot {
            group_id: group_id.clone(),
            pre_state: EntityMergePreState {
                loser_entity_row: capture_row(loser),
                keeper_pre: KeeperPre {
                    id: keeper_id.clone(),
                    access_count: keeper.access_count,
                    ner_confidence: keeper.ner_confidence,
                },
                repointed_facts,
                episodic_edges,
                self_loops_expired,
            },
            inputs: MergeInputs {
                pair_lo,
                pair_hi,
                keeper: keeper_id.clone(),
                loser: loser_id.clone(),
                site: owned(site),
                cosine,
                structural_signal,
            },
        },
    )
}

/// The row of an entity is the first with its key, and where no row has it there is none.
pub proof fn law_row_is_the_first(entities: Seq<EntityView>, id: Seq<char>, group: Seq<char>)
    ensures
        match entity_row(entities, id, group) {
            Some(e) => exists|i: int|
                0 <= i < entities.len() && #[trigger] entities[i] == e && e.id == id && e.group_id
                    == group && forall|j: int|
                    0 <= j < i ==> (#[trigger] entities[j]).id != id || entities[j].group_id
                        != group,
            None => forall|j: int|
                0 <= j < entities.len() ==> (#[trigger] entities[j]).id != id
                    || entities[j].group_id != group,
        },
    decreases entities.len(),
{
    if entities.len() > 0 {
        let front = entities.drop_last();
        law_row_is_the_first(front, id, group);
        assert forall|j: int| 0 <= j < front.len() implies #[trigger] entities[j] == front[j] by {}
        match entity_row(front, id, group) {
            Some(e) => {
                let i = choose|i: int|
                    0 <= i < front.len() && #[trigger] front[i] == e && e.id == id && e.group_id
                        == group && forall|j: int|
                        0 <= j < i ==> (#[trigger] front[j]).id != id || front[j].group_id != group;
                assert(entities[i] == e);
            },
            None => {
                assert(entities[entities.len() - 1] == entities.last());
            },
        }
    }
}

/// A captured row loses nothing: it can be the capture of one row only.
pub proof fn law_captured_row_loses_nothing(row: LoserEntityRow, a: EntityView, b: EntityView)
    requires
        captures_row(row, a),
        captures_row(row, b),
    ensures
        a == b,
{
    if let (Some(x), Some(y)) = (a.embedding, b.embedding) {
        assert(base64_of(x) == base64_of(y));
        crate::canonicalization::base64_text::law_base64_loses_nothing(x, y);
    }
}

/// A refusal names the entity that is missing, its part in the merge and the namespace.
pub proof fn law_refusal_names_the_missing(role: Seq<char>, id: Seq<char>, group: Seq<char>)
    ensures
        missing_entity(role, id, group) == "reversible-mutations snapshot: "@ + role
            + " entity `"@ + id + "` not found in namespace `"@ + group
            + "` \u{2014} cannot capture a reversible pre-state for this merge"@,
{
}

/// A pre-state captures everything that undoing needs: the loser's row and the keeper's
/// overwritten values as they are in the tables, every endpoint that is re-pointed, every edge
/// of the loser and every fact that collapses.
pub proof fn law_pre_state_is_whole(p: EntityMergePreState, t: TablesView, m: MergeOf)
    requires
        captures(p, t, m),
    ensures
        entity_row(t.entities, m.loser, m.group) is Some,
        entity_row(t.entities, m.keeper, m.group) is Some,
        forall|e: EntityView|
            #[trigger] captures_row(p.loser_entity_row, e) ==> e == entity_row(
                t.entities,
                m.loser,
                m.group,
            )->0,
        p.keeper_pre.id@ == m.keeper,
        p.keeper_pre.access_count == entity_row(t.entities, m.keeper, m.group)->0.access_count,
        p.keeper_pre.ner_confidence == entity_row(t.entities, m.keeper, m.group)->0.ner_confidence,
        p.repointed_facts@ == repointed_on(t.facts, FactEndpoint::Subject, m) + repointed_on(
            t.facts,
            FactEndpoint::Object,
            m,
        ),
        p.episodic_edges.len() == loser_edges(t.edges, m, t.edges.len()).len(),
        forall|i: int|
            0 <= i < p.episodic_edges.len() ==> (#[trigger] p.episodic_edges@[i])@ == loser_edges(
                t.edges,
                m,
                t.edges.len(),
            )[i],
        p.self_loops_expired@ == doomed_ids(t.facts, m),
{
    let views = p.episodic_edges@.map_values(|e: EpisodicEdgeSnapshot| e@);
    assert forall|i: int| 0 <= i < p.episodic_edges.len() implies (
    #[trigger] p.episodic_edges@[i])@ == loser_edges(t.edges, m, t.edges.len())[i] by {
        assert(views[i] == p.episodic_edges@[i]@);
    }
    assert forall|e: EntityView| #[trigger] captures_row(p.loser_entity_row, e) implies e
        == entity_row(t.entities, m.loser, m.group)->0 by {
        law_captured_row_loses_nothing(
            p.loser_entity_row,
            e,
            entity_row(t.entities, m.loser, m.group)->0,
        );
    }
}

/// Column by column, the captured row says what the entity's row says.
pub proof fn law_captured_row_says_the_same(row: LoserEntityRow, e: EntityView)
    requires
        captures_row(row, e),
    ensures
        row.id@ == e.id,
        row.group_id@ == e.group_id,
        row.properties is Some <==> e.properties is Some,
        row.properties matches Some(s) ==> s@ == e.properties->0,
        row.embedding_b64 is Some <==> e.embedding is Some,
        row.embedding_b64 matches Some(s) ==> s@ == base64_of(e.embedding->0),
        row.recorded_at@ == e.recorded_at,
        row.updated_at is Some <==> e.updated_at is Some,
        row.updated_at matches Some(s) ==> s@ == e.updated_at->0,
        row.access_count == e.access_count,
        row.entity_type_id == e.entity_type_id,
        row.entity_type_source is Some <==> e.entity_type_source is Some,
        row.entity_type_source matches Some(s) ==> s@ == e.entity_type_source->0,
        row.entity_type_assigned_at is Some <==> e.entity_type_assigned_at is Some,
        row.entity_type_assigned_at matches Some(s) ==> s@ == e.entity_type_assigned_at->0,
        row.ner_confidence == e.ner_confidence,
{
}

/// A captured edge says what it holds.
pub proof fn law_captured_edge_is_read_as_it_is(e: EpisodicEdgeSnapshot)
    ensures
        e@.edge.episode_id == e.episode_id,
        e@.edge.entity == e.cols.entity_id@,
        e@.edge.group == e.entity_group_id@,
        e@.edge.role == e.cols.role@,
        e@.edge.recorded_at == e.cols.recorded_at@,
        e@.collided == e.collided,
{
}

}
