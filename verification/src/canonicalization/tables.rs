//! The rows that a merge reads and writes.

use vstd::prelude::*;
use crate::ieee::Binary64;
use crate::text::same_text;

verus! {

/// A row of the entity table. `(id, group_id)` is its key.
#[derive(Debug)]
pub struct EntityRow {
    pub id: String,
    pub group_id: String,
    pub properties: Option<String>,
    /// The vector as raw bytes.
    pub embedding: Option<Vec<u8>>,
    pub recorded_at: String,
    pub updated_at: Option<String>,
    pub access_count: i64,
    pub entity_type_id: i64,
    pub entity_type_source: Option<String>,
    pub entity_type_assigned_at: Option<String>,
    pub ner_confidence: Option<Binary64>,
}

/// A row of the fact table, as far as a merge is concerned. Its id is its key.
#[derive(Debug)]
pub struct FactRow {
    pub id: i64,
    pub subject_id: String,
    pub subject_group_id: String,
    /// `None` for a fact whose object is no entity.
    pub object_id: Option<String>,
    pub object_group_id: Option<String>,
    /// Whether the fact counts as directly asserted: `0` when it does.
    pub corroboration_inert: i64,
    /// Whether the fact was expired.
    pub expired: bool,
}

/// A row of the table of episodic edges. `(episode_id, entity_id, entity_group_id)` is
/// its key.
#[derive(Debug)]
pub struct EdgeRow {
    pub episode_id: i64,
    pub entity_id: String,
    pub entity_group_id: String,
    pub role: String,
    pub recorded_at: String,
}

/// The rows that a merge looks at: at least the two entities, every fact with an
/// endpoint in one of them and every episodic edge of one of them.
#[derive(Debug)]
pub struct MergeTables {
    pub entities: Vec<EntityRow>,
    pub facts: Vec<FactRow>,
    pub edges: Vec<EdgeRow>,
}

/// What an optional text column holds.
pub open spec fn text_column(column: Option<String>) -> Option<Seq<char>> {
    match column {
        Some(s) => Some(s@),
        None => None,
    }
}

/// What an [`EntityRow`] says.
pub struct EntityView {
    pub id: Seq<char>,
    pub group_id: Seq<char>,
    pub properties: Option<Seq<char>>,
    pub embedding: Option<Seq<u8>>,
    pub recorded_at: Seq<char>,
    pub updated_at: Option<Seq<char>>,
    pub access_count: int,
    pub entity_type_id: i64,
    pub entity_type_source: Option<Seq<char>>,
    pub entity_type_assigned_at: Option<Seq<char>>,
    pub ner_confidence: Option<Binary64>,
}

impl View for EntityRow {
    type V = EntityView;

    open spec fn view(&self) -> EntityView {
        EntityView {
            id: self.id@,
            group_id: self.group_id@,
            properties: text_column(self.properties),
            embedding: match self.embedding {
                Some(b) => Some(b@),
                None => None,
            },
            recorded_at: self.recorded_at@,
            updated_at: text_column(self.updated_at),
            access_count: self.access_count as int,
            entity_type_id: self.entity_type_id,
            entity_type_source: text_column(self.entity_type_source),
            entity_type_assigned_at: text_column(self.entity_type_assigned_at),
            ner_confidence: self.ner_confidence,
        }
    }
}

/// What a [`FactRow`] says.
pub struct FactView {
    pub id: i64,
    pub subject: Seq<char>,
    pub subject_group: Seq<char>,
    pub object: Option<Seq<char>>,
    pub object_group: Option<Seq<char>>,
    pub inert: i64,
    pub expired: bool,
}

impl View for FactRow {
    type V = FactView;

    open spec fn view(&self) -> FactView {
        FactView {
            id: self.id,
            subject: self.subject_id@,
            subject_group: self.subject_group_id@,
            object: text_column(self.object_id),
            object_group: text_column(self.object_group_id),
            inert: self.corroboration_inert,
            expired: self.expired,
        }
    }
}

/// What an [`EdgeRow`] says.
pub struct EdgeView {
    pub episode_id: i64,
    pub entity: Seq<char>,
    pub group: Seq<char>,
    pub role: Seq<char>,
    pub recorded_at: Seq<char>,
}

impl View for EdgeRow {
    type V = EdgeView;

    open spec fn view(&self) -> EdgeView {
        EdgeView {
            episode_id: self.episode_id,
            entity: self.entity_id@,
            group: self.entity_group_id@,
            role: self.role@,
            recorded_at: self.recorded_at@,
        }
    }
}

/// What [`MergeTables`] say.
#[verifier::ext_equal]
pub struct TablesView {
    pub entities: Seq<EntityView>,
    pub facts: Seq<FactView>,
    pub edges: Seq<EdgeView>,
}

impl View for MergeTables {
    type V = TablesView;

    open spec fn view(&self) -> TablesView {
        TablesView {
            entities: self.entities@.map_values(|e: EntityRow| e@),
            facts: self.facts@.map_values(|f: FactRow| f@),
            edges: self.edges@.map_values(|e: EdgeRow| e@),
        }
    }
}

/// A merge of `loser` into `keeper` within the namespace `group`.
pub struct MergeOf {
    pub loser: Seq<char>,
    pub keeper: Seq<char>,
    pub group: Seq<char>,
}

impl EntityView {
    /// The row of entity `id` in namespace `group`.
    pub open spec fn is(self, id: Seq<char>, group: Seq<char>) -> bool {
        self.id == id && self.group_id == group
    }
}

impl FactView {
    /// The subject is entity `id` of namespace `group`.
    pub open spec fn subject_is(self, id: Seq<char>, group: Seq<char>) -> bool {
        self.subject == id && self.subject_group == group
    }

    /// The object is entity `id` of namespace `group`.
    pub open spec fn object_is(self, id: Seq<char>, group: Seq<char>) -> bool {
        self.object == Some(id) && self.object_group == Some(group)
    }

    /// The fact relates entity `id` of namespace `group` to itself.
    pub open spec fn loops_on(self, id: Seq<char>, group: Seq<char>) -> bool {
        self.subject_is(id, group) && self.object_is(id, group)
    }
}

impl EdgeView {
    /// The edge is one of entity `id` of namespace `group`.
    pub open spec fn of(self, id: Seq<char>, group: Seq<char>) -> bool {
        self.entity == id && self.group == group
    }
}

/// The fact is live and the merge makes it relate the keeper to itself: it runs between
/// the two entities, or from the loser to itself. A fact that already runs from the
/// keeper to itself is not one.
pub open spec fn is_doomed(f: FactView, m: MergeOf) -> bool {
    &&& !f.expired
    &&& f.subject_group == m.group
    &&& f.object_group == Some(m.group)
    &&& {
        ||| f.subject == m.loser && f.object == Some(m.keeper)
        ||| f.subject == m.keeper && f.object == Some(m.loser)
        ||| f.subject == m.loser && f.object == Some(m.loser)
    }
}

/// The ids of the doomed facts, in the order of the rows.
pub open spec fn doomed_ids(facts: Seq<FactView>, m: MergeOf) -> Seq<i64>
    decreases facts.len(),
{
    if facts.len() == 0 {
        seq![]
    } else {
        let before = doomed_ids(facts.drop_last(), m);
        if is_doomed(facts.last(), m) {
            before.push(facts.last().id)
        } else {
            before
        }
    }
}

/// Whether an optional column holds the given text.
pub fn column_is(column: &Option<String>, text: &String) -> (r: bool)
    ensures
        r == (text_column(*column) == Some(text@)),
{
    match column {
        Some(s) => same_text(s, text),
        None => false,
    }
}

/// The ids of the facts that a merge of `loser_id` into `keeper_id` collapses into a
/// relation of the keeper to itself, which says nothing.
pub fn self_loop_fact_ids(
    facts: &Vec<FactRow>,
    loser_id: &String,
    keeper_id: &String,
    group_id: &String,
) -> (r: Vec<i64>)
    ensures
        r@ == doomed_ids(
            facts@.map_values(|f: FactRow| f@),
            (MergeOf { loser: loser_id@, keeper: keeper_id@, group: group_id@ }),
        ),
{
    let ghost m = MergeOf { loser: loser_id@, keeper: keeper_id@, group: group_id@ };
    let ghost rows = facts@.map_values(|f: FactRow| f@);
    let mut ids: Vec<i64> = Vec::new();
    let mut i: usize = 0;
    assert(rows.take(0) =~= Seq::<FactView>::empty());
    while i < facts.len()
        invariant
            i <= facts.len(),
            m == (MergeOf { loser: loser_id@, keeper: keeper_id@, group: group_id@ }),
            rows == facts@.map_values(|f: FactRow| f@),
            ids@ == doomed_ids(rows.take(i as int), m),
        decreases facts.len() - i,
    {
        let f = &facts[i];
        proof {
            assert(rows.take(i + 1).drop_last() =~= rows.take(i as int));
            assert(rows.take(i + 1).last() == f@);
        }
        let in_group = same_text(&f.subject_group_id, group_id) && column_is(
            &f.object_group_id,
            group_id,
        );
        let from_loser = same_text(&f.subject_id, loser_id);
        let from_keeper = same_text(&f.subject_id, keeper_id);
        let to_loser = column_is(&f.object_id, loser_id);
        let to_keeper = column_is(&f.object_id, keeper_id);
        if !f.expired && in_group && ((from_loser && to_keeper) || (from_keeper && to_loser) || (
        from_loser && to_loser)) {
            ids.push(f.id);
        }
        i = i + 1;
    }
    assert(rows.take(i as int) =~= rows);
    ids
}

/// An optional column says what it holds, and a null says nothing.
pub open spec fn column_says(column: Option<String>, said: Option<Seq<char>>) -> bool {
    &&& column is Some <==> said is Some
    &&& column matches Some(s) ==> said == Some(s@)
}

/// Row by row and column by column, the tables say what is in them.
pub proof fn law_rows_are_read_as_they_are(t: MergeTables, i: int)
    ensures
        t@.entities.len() == t.entities.len(),
        t@.facts.len() == t.facts.len(),
        t@.edges.len() == t.edges.len(),
        0 <= i < t.entities.len() ==> {
            let (row, said) = (t.entities@[i], t@.entities[i]);
            &&& said.id == row.id@
            &&& said.group_id == row.group_id@
            &&& column_says(row.properties, said.properties)
            &&& row.embedding is Some <==> said.embedding is Some
            &&& row.embedding matches Some(b) ==> said.embedding == Some(b@)
            &&& said.recorded_at == row.recorded_at@
            &&& column_says(row.updated_at, said.updated_at)
            &&& said.access_count == row.access_count
            &&& said.entity_type_id == row.entity_type_id
            &&& column_says(row.entity_type_source, said.entity_type_source)
            &&& column_says(row.entity_type_assigned_at, said.entity_type_assigned_at)
            &&& said.ner_confidence == row.ner_confidence
        },
        0 <= i < t.facts.len() ==> {
            let (row, said) = (t.facts@[i], t@.facts[i]);
            &&& said.id == row.id
            &&& said.subject == row.subject_id@
            &&& said.subject_group == row.subject_group_id@
            &&& column_says(row.object_id, said.object)
            &&& column_says(row.object_group_id, said.object_group)
            &&& said.inert == row.corroboration_inert
            &&& said.expired == row.expired
        },
        0 <= i < t.edges.len() ==> {
            let (row, said) = (t.edges@[i], t@.edges[i]);
            &&& said.episode_id == row.episode_id
            &&& said.entity == row.entity_id@
            &&& said.group == row.entity_group_id@
            &&& said.role == row.role@
            &&& said.recorded_at == row.recorded_at@
        },
{
}

/// A fact is collapsed exactly when it is live, both of its ends lie in the namespace, and it
/// runs between the two entities, either way, or from the loser to itself.
pub proof fn law_collapse_is_between_the_two(f: FactView, m: MergeOf)
    ensures
        is_doomed(f, m) <==> !f.expired && f.subject_group == m.group && f.object_group == Some(
            m.group,
        ) && ((f.subject == m.loser && f.object == Some(m.keeper)) || (f.subject == m.keeper
            && f.object == Some(m.loser)) || (f.subject == m.loser && f.object == Some(m.loser))),
{
}

}
