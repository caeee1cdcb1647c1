//! The statements of a merge as commands on tables.
//!
//! The executor sends text. Here each text is read as a command: which table it is about,
//! which columns it sets and which rows it is for. The laws say that the text is the
//! command's own, and that what the command does to the rows it is for, and to no other, is
//! what the merge needs.

use vstd::prelude::*;
use crate::canonicalization::effects::{
    access_added, confidence_set, edge_moved, edges_without, entities_without, expired_by,
    same_edge_key, tables_after, MergeContext,
};
use crate::canonicalization::executor::{MergeStatement, StatementParam};
use crate::canonicalization::snapshot::keeper_has;
use crate::canonicalization::store::full_text_without;
use crate::canonicalization::tables::{EdgeView, EntityView, FactView, TablesView};
use crate::ieee::{Binary32, Binary64};
use crate::selection::{selects, selects_from_none, selects_one_more};
use crate::text::{decimal, digit};

verus! {

/// A table that a merge writes to.
pub enum Table {
    Facts,
    Edges,
    Entities,
    FullText,
}

impl Table {
    /// The table's name.
    pub open spec fn text(self) -> Seq<char> {
        match self {
            Table::Facts => "facts"@,
            Table::Edges => "episodic_edges"@,
            Table::Entities => "entities"@,
            Table::FullText => "entities_fts"@,
        }
    }
}

/// A column of one of these tables.
pub enum Column {
    SubjectId,
    SubjectGroupId,
    ObjectId,
    ObjectGroupId,
    CorroborationInert,
    ExpiredAt,
    EntityId,
    EntityGroupId,
    Id,
    GroupId,
    AccessCount,
    NerConfidence,
}

impl Column {
    /// The column's name.
    pub open spec fn text(self) -> Seq<char> {
        match self {
            Column::SubjectId => "subject_id"@,
            Column::SubjectGroupId => "subject_group_id"@,
            Column::ObjectId => "object_id"@,
            Column::ObjectGroupId => "object_group_id"@,
            Column::CorroborationInert => "corroboration_inert"@,
            Column::ExpiredAt => "expired_at"@,
            Column::EntityId => "entity_id"@,
            Column::EntityGroupId => "entity_group_id"@,
            Column::Id => "id"@,
            Column::GroupId => "group_id"@,
            Column::AccessCount => "access_count"@,
            Column::NerConfidence => "ner_confidence"@,
        }
    }
}

/// What a command asks of a row.
pub enum Condition {
    /// The column holds the parameter with the given number.
    Is(Column, nat),
    /// The column holds nothing.
    IsNull(Column),
}

impl Condition {
    /// The condition as it is written.
    pub open spec fn text(self) -> Seq<char> {
        match self {
            Condition::Is(column, n) => column.text() + " = ?"@ + decimal(n),
            Condition::IsNull(column) => column.text() + " IS NULL"@,
        }
    }
}

/// What a command sets in a row.
pub enum Assignment {
    /// The column becomes the parameter with the given number.
    Becomes(Column, nat),
    /// The column becomes one.
    BecomesOne(Column),
    /// The parameter with the given number is added to the column.
    Grows(Column, nat),
}

impl Assignment {
    /// The assignment as it is written.
    pub open spec fn text(self) -> Seq<char> {
        match self {
            Assignment::Becomes(column, n) => column.text() + " = ?"@ + decimal(n),
            Assignment::BecomesOne(column) => column.text() + " = 1"@,
            Assignment::Grows(column, n) => column.text() + " = "@ + column.text() + " + ?"@
                + decimal(n),
        }
    }
}

/// The conditions, joined.
pub open spec fn conditions_text(filter: Seq<Condition>) -> Seq<char>
    decreases filter.len(),
{
    if filter.len() == 0 {
        seq![]
    } else if filter.len() == 1 {
        filter[0].text()
    } else {
        conditions_text(filter.drop_last()) + " AND "@ + filter.last().text()
    }
}

/// The assignments, joined.
pub open spec fn assignments_text(set: Seq<Assignment>) -> Seq<char>
    decreases set.len(),
{
    if set.len() == 0 {
        seq![]
    } else if set.len() == 1 {
        set[0].text()
    } else {
        assignments_text(set.drop_last()) + ", "@ + set.last().text()
    }
}

/// A command on a table.
pub enum Command {
    /// Sets columns of the rows that meet every condition.
    Update { table: Table, set: Seq<Assignment>, filter: Seq<Condition> },
    /// As [`Command::Update`], but a row that would get the key of another one is left alone.
    UpdateOrIgnore { table: Table, set: Seq<Assignment>, filter: Seq<Condition> },
    /// Deletes the rows that meet every condition.
    Delete { table: Table, filter: Seq<Condition> },
}

impl Command {
    /// The command as it is written.
    pub open spec fn text(self) -> Seq<char> {
        match self {
            Command::Update { table, set, filter } => "UPDATE "@ + table.text() + " SET "@
                + assignments_text(set) + " WHERE "@ + conditions_text(filter),
            Command::UpdateOrIgnore { table, set, filter } => "UPDATE OR IGNORE "@ + table.text()
                + " SET "@ + assignments_text(set) + " WHERE "@ + conditions_text(filter),
            Command::Delete { table, filter } => "DELETE FROM "@ + table.text() + " WHERE "@
                + conditions_text(filter),
        }
    }
}

/// The command of each statement but the insert of the audit row.
pub open spec fn command_of(s: MergeStatement) -> Option<Command> {
    match s {
        MergeStatement::RepointSubjects => Some(
            Command::Update {
                table: Table::Facts,
                set: seq![
                    Assignment::Becomes(Column::SubjectId, 1),
                    Assignment::BecomesOne(Column::CorroborationInert),
                ],
                filter: seq![
                    Condition::Is(Column::SubjectId, 2),
                    Condition::Is(Column::SubjectGroupId, 3),
                ],
            },
        ),
        MergeStatement::RepointObjects => Some(
            Command::Update {
                table: Table::Facts,
                set: seq![
                    Assignment::Becomes(Column::ObjectId, 1),
                    Assignment::BecomesOne(Column::CorroborationInert),
                ],
                filter: seq![
                    Condition::Is(Column::ObjectId, 2),
                    Condition::Is(Column::ObjectGroupId, 3),
                ],
            },
        ),
        MergeStatement::RepointEdges => Some(
            Command::UpdateOrIgnore {
                table: Table::Edges,
                set: seq![Assignment::Becomes(Column::EntityId, 1)],
                filter: seq![
                    Condition::Is(Column::EntityId, 2),
                    Condition::Is(Column::EntityGroupId, 3),
                ],
            },
        ),
        MergeStatement::DropLoserEdges => Some(
            Command::Delete {
                table: Table::Edges,
                filter: seq![
                    Condition::Is(Column::EntityId, 1),
                    Condition::Is(Column::EntityGroupId, 2),
                ],
            },
        ),
        MergeStatement::ExpireFact(_) => Some(
            Command::Update {
                table: Table::Facts,
                set: seq![Assignment::Becomes(Column::ExpiredAt, 1)],
                filter: seq![
                    Condition::Is(Column::Id, 2),
                    Condition::IsNull(Column::ExpiredAt),
                ],
            },
        ),
        MergeStatement::AddAccess => Some(
            Command::Update {
                table: Table::Entities,
                set: seq![Assignment::Grows(Column::AccessCount, 1)],
                filter: seq![Condition::Is(Column::Id, 2), Condition::Is(Column::GroupId, 3)],
            },
        ),
        MergeStatement::SetConfidence(_) => Some(
            Command::Update {
                table: Table::Entities,
                set: seq![Assignment::Becomes(Column::NerConfidence, 1)],
                filter: seq![Condition::Is(Column::Id, 2), Condition::Is(Column::GroupId, 3)],
            },
        ),
        MergeStatement::DeleteFullText => Some(
            Command::Delete {
                table: Table::FullText,
                filter: seq![Condition::Is(Column::EntityId, 1)],
            },
        ),
        MergeStatement::DeleteEntity => Some(
            Command::Delete {
                table: Table::Entities,
                filter: seq![Condition::Is(Column::Id, 1), Condition::Is(Column::GroupId, 2)],
            },
        ),
        MergeStatement::InsertAudit => None,
    }
}

/// A value that a column holds or that is bound to a parameter.
pub enum Value {
    Text(Seq<char>),
    Number(int),
    Real(Binary64),
    Time,
}

/// What is bound to a parameter; `None` for a null.
pub open spec fn bound(p: StatementParam, c: MergeContext) -> Option<Value> {
    match p {
        StatementParam::Keeper => Some(Value::Text(c.m.keeper)),
        StatementParam::Loser => Some(Value::Text(c.m.loser)),
        StatementParam::Group => Some(Value::Text(c.m.group)),
        StatementParam::Now => Some(Value::Time),
        StatementParam::DoomedFact(i) => Some(Value::Number(c.doomed[i as int] as int)),
        StatementParam::AccessCount => Some(Value::Number(c.access_count)),
        StatementParam::Confidence(v) => match v {
            Some(v) => Some(Value::Real(v)),
            None => None,
        },
        StatementParam::AuditColumns => None,
    }
}

/// What is bound to the parameter with the given number, counted from one.
pub open spec fn argument(params: Seq<StatementParam>, c: MergeContext, n: nat) -> Option<Value> {
    bound(params[n - 1], c)
}

/// A column that holds `held` meets the condition. Nothing equals a null.
pub open spec fn meets(
    held: Option<Value>,
    condition: Condition,
    params: Seq<StatementParam>,
    c: MergeContext,
) -> bool {
    match condition {
        Condition::Is(_, n) => held is Some && held == argument(params, c, n),
        Condition::IsNull(_) => held is None,
    }
}

/// The column that a condition looks at.
pub open spec fn looked_at(condition: Condition) -> Column {
    match condition {
        Condition::Is(column, _) => column,
        Condition::IsNull(column) => column,
    }
}

/// What an optional text column holds.
pub open spec fn held_text(column: Option<Seq<char>>) -> Option<Value> {
    match column {
        Some(s) => Some(Value::Text(s)),
        None => None,
    }
}

/// What a column of a fact holds.
pub open spec fn fact_column(f: FactView, column: Column) -> Option<Value> {
    match column {
        Column::Id => Some(Value::Number(f.id as int)),
        Column::SubjectId => Some(Value::Text(f.subject)),
        Column::SubjectGroupId => Some(Value::Text(f.subject_group)),
        Column::ObjectId => held_text(f.object),
        Column::ObjectGroupId => held_text(f.object_group),
        Column::CorroborationInert => Some(Value::Number(f.inert as int)),
        Column::ExpiredAt => if f.expired {
            Some(Value::Time)
        } else {
            None
        },
        _ => None,
    }
}

/// What a column of an edge holds.
pub open spec fn edge_column(e: EdgeView, column: Column) -> Option<Value> {
    match column {
        Column::EntityId => Some(Value::Text(e.entity)),
        Column::EntityGroupId => Some(Value::Text(e.group)),
        _ => None,
    }
}

/// What a column of an entity holds.
pub open spec fn entity_column(e: EntityView, column: Column) -> Option<Value> {
    match column {
        Column::Id => Some(Value::Text(e.id)),
        Column::GroupId => Some(Value::Text(e.group_id)),
        Column::AccessCount => Some(Value::Number(e.access_count)),
        Column::NerConfidence => match e.ner_confidence {
            Some(v) => Some(Value::Real(v)),
            None => None,
        },
        _ => None,
    }
}

/// The fact meets every condition.
pub open spec fn is_for_fact(
    filter: Seq<Condition>,
    f: FactView,
    params: Seq<StatementParam>,
    c: MergeContext,
) -> bool {
    forall|i: int|
        0 <= i < filter.len() ==> meets(
            fact_column(f, looked_at(#[trigger] filter[i])),
            filter[i],
            params,
            c,
        )
}

/// The edge meets every condition.
pub open spec fn is_for_edge(
    filter: Seq<Condition>,
    e: EdgeView,
    params: Seq<StatementParam>,
    c: MergeContext,
) -> bool {
    forall|i: int|
        0 <= i < filter.len() ==> meets(
            edge_column(e, looked_at(#[trigger] filter[i])),
            filter[i],
            params,
            c,
        )
}

/// The entity meets every condition.
pub open spec fn is_for_entity(
    filter: Seq<Condition>,
    e: EntityView,
    params: Seq<StatementParam>,
    c: MergeContext,
) -> bool {
    forall|i: int|
        0 <= i < filter.len() ==> meets(
            entity_column(e, looked_at(#[trigger] filter[i])),
            filter[i],
            params,
            c,
        )
}

/// The full-text row of an entity meets every condition.
pub open spec fn is_for_full_text(
    filter: Seq<Condition>,
    entity_id: Seq<char>,
    params: Seq<StatementParam>,
    c: MergeContext,
) -> bool {
    forall|i: int|
        0 <= i < filter.len() ==> looked_at(#[trigger] filter[i]) is EntityId && meets(
            Some(Value::Text(entity_id)),
            filter[i],
            params,
            c,
        )
}

/// The column that an assignment sets.
pub open spec fn assigned_to(a: Assignment) -> Column {
    match a {
        Assignment::Becomes(column, _) => column,
        Assignment::BecomesOne(column) => column,
        Assignment::Grows(column, _) => column,
    }
}

/// What a column holds after an assignment to it.
pub open spec fn assigned(
    held: Option<Value>,
    a: Assignment,
    params: Seq<StatementParam>,
    c: MergeContext,
) -> Option<Value> {
    match a {
        Assignment::Becomes(_, n) => argument(params, c, n),
        Assignment::BecomesOne(_) => Some(Value::Number(1)),
        Assignment::Grows(_, n) => match (held, argument(params, c, n)) {
            (Some(Value::Number(x)), Some(Value::Number(y))) => Some(Value::Number(x + y)),
            _ => None,
        },
    }
}

/// The column is one of those that are set.
pub open spec fn is_set(set: Seq<Assignment>, column: Column) -> bool {
    exists|i: int| 0 <= i < set.len() && assigned_to(#[trigger] set[i]) == column
}

/// `after` is the fact `before` with the assignments carried out: each column that is set
/// holds what it was assigned, and every other one what it held.
pub open spec fn sets_fact(
    set: Seq<Assignment>,
    before: FactView,
    after: FactView,
    params: Seq<StatementParam>,
    c: MergeContext,
) -> bool {
    &&& forall|i: int|
        0 <= i < set.len() ==> fact_column(after, assigned_to(#[trigger] set[i])) == assigned(
            fact_column(before, assigned_to(set[i])),
            set[i],
            params,
            c,
        )
    &&& forall|column: Column|
        !is_set(set, column) ==> #[trigger] fact_column(after, column) == fact_column(
            before,
            column,
        )
}

/// As [`sets_fact`], for an edge.
pub open spec fn sets_edge(
    set: Seq<Assignment>,
    before: EdgeView,
    after: EdgeView,
    params: Seq<StatementParam>,
    c: MergeContext,
) -> bool {
    &&& forall|i: int|
        0 <= i < set.len() ==> edge_column(after, assigned_to(#[trigger] set[i])) == assigned(
            edge_column(before, assigned_to(set[i])),
            set[i],
            params,
            c,
        )
    &&& forall|column: Column|
        !is_set(set, column) ==> #[trigger] edge_column(after, column) == edge_column(
            before,
            column,
        )
    &&& after.episode_id == before.episode_id
    &&& after.role == before.role
    &&& after.recorded_at == before.recorded_at
}

/// As [`sets_fact`], for an entity.
pub open spec fn sets_entity(
    set: Seq<Assignment>,
    before: EntityView,
    after: EntityView,
    params: Seq<StatementParam>,
    c: MergeContext,
) -> bool {
    &&& forall|i: int|
        0 <= i < set.len() ==> entity_column(after, assigned_to(#[trigger] set[i])) == assigned(
            entity_column(before, assigned_to(set[i])),
            set[i],
            params,
            c,
        )
    &&& forall|column: Column|
        !is_set(set, column) ==> #[trigger] entity_column(after, column) == entity_column(
            before,
            column,
        )
    &&& after.properties == before.properties
    &&& after.embedding == before.embedding
    &&& after.recorded_at == before.recorded_at
    &&& after.updated_at == before.updated_at
    &&& after.entity_type_id == before.entity_type_id
    &&& after.entity_type_source == before.entity_type_source
    &&& after.entity_type_assigned_at == before.entity_type_assigned_at
}

/// The facts after an update: those it is for are set, and every other one is as it was.
pub open spec fn updates_facts(
    set: Seq<Assignment>,
    filter: Seq<Condition>,
    before: Seq<FactView>,
    after: Seq<FactView>,
    params: Seq<StatementParam>,
    c: MergeContext,
) -> bool {
    &&& after.len() == before.len()
    &&& forall|x: int|
        0 <= x < before.len() ==> if is_for_fact(filter, #[trigger] before[x], params, c) {
            sets_fact(set, before[x], after[x], params, c)
        } else {
            after[x] == before[x]
        }
}

/// The entities after an update.
pub open spec fn updates_entities(
    set: Seq<Assignment>,
    filter: Seq<Condition>,
    before: Seq<EntityView>,
    after: Seq<EntityView>,
    params: Seq<StatementParam>,
    c: MergeContext,
) -> bool {
    &&& after.len() == before.len()
    &&& forall|x: int|
        0 <= x < before.len() ==> if is_for_entity(filter, #[trigger] before[x], params, c) {
            sets_entity(set, before[x], after[x], params, c)
        } else {
            after[x] == before[x]
        }
}

/// Some edge has the key of `e`.
pub open spec fn key_is_taken(edges: Seq<EdgeView>, e: EdgeView) -> bool {
    exists|y: int| 0 <= y < edges.len() && same_edge_key(#[trigger] edges[y], e)
}

/// The edges after an update that leaves a row alone whose new key is taken.
pub open spec fn updates_free_edges(
    set: Seq<Assignment>,
    filter: Seq<Condition>,
    before: Seq<EdgeView>,
    after: Seq<EdgeView>,
    params: Seq<StatementParam>,
    c: MergeContext,
) -> bool {
    &&& after.len() == before.len()
    &&& forall|x: int|
        0 <= x < before.len() ==> if is_for_edge(filter, #[trigger] before[x], params, c) {
            ||| sets_edge(set, before[x], after[x], params, c) && !key_is_taken(before, after[x])
            ||| after[x] == before[x] && exists|e: EdgeView| #[trigger]
                sets_edge(set, before[x], e, params, c) && key_is_taken(before, e)
        } else {
            after[x] == before[x]
        }
}

/// The tables `after` are what the command makes of the tables `before`.
pub open spec fn does(
    command: Command,
    params: Seq<StatementParam>,
    c: MergeContext,
    before: TablesView,
    after: TablesView,
) -> bool {
    match command {
        Command::Update { table: Table::Facts, set, filter } => {
            &&& updates_facts(set, filter, before.facts, after.facts, params, c)
            &&& after.edges == before.edges
            &&& after.entities == before.entities
        },
        Command::Update { table: Table::Entities, set, filter } => {
            &&& updates_entities(set, filter, before.entities, after.entities, params, c)
            &&& after.edges == before.edges
            &&& after.facts == before.facts
        },
        Command::UpdateOrIgnore { table: Table::Edges, set, filter } => {
            &&& updates_free_edges(set, filter, before.edges, after.edges, params, c)
            &&& after.facts == before.facts
            &&& after.entities == before.entities
        },
        Command::Delete { table: Table::Edges, filter } => {
            &&& selects(
                after.edges,
                before.edges.len(),
                |k: int| !is_for_edge(filter, before.edges[k], params, c),
                |k: int| before.edges[k],
            )
            &&& after.facts == before.facts
            &&& after.entities == before.entities
        },
        Command::Delete { table: Table::Entities, filter } => {
            &&& selects(
                after.entities,
                before.entities.len(),
                |k: int| !is_for_entity(filter, before.entities[k], params, c),
                |k: int| before.entities[k],
            )
            &&& after.facts == before.facts
            &&& after.edges == before.edges
        },
        Command::Delete { table: Table::FullText, .. } => after == before,
        _ => false,
    }
}

proof fn digits_unfold()
    ensures
        decimal(1) == seq!['1'],
        decimal(2) == seq!['2'],
        decimal(3) == seq!['3'],
{
    assert(digit(1) == '1' && digit(2) == '2' && digit(3) == '3');
}

proof fn conditions_unfold(a: Condition, b: Condition)
    ensures
        conditions_text(seq![a]) == a.text(),
        conditions_text(seq![a, b]) == a.text() + " AND "@ + b.text(),
{
    reveal_with_fuel(conditions_text, 3);
    assert(seq![a, b].drop_last() =~= seq![a]);
}

proof fn assignments_unfold(a: Assignment, b: Assignment)
    ensures
        assignments_text(seq![a]) == a.text(),
        assignments_text(seq![a, b]) == a.text() + ", "@ + b.text(),
{
    reveal_with_fuel(assignments_text, 3);
    assert(seq![a, b].drop_last() =~= seq![a]);
}

proof fn repoint_subjects_is_written()
    ensures
        MergeStatement::RepointSubjects.text().sql@ == command_of(MergeStatement::RepointSubjects)->0.text(),
{
    digits_unfold();
    let command = command_of(MergeStatement::RepointSubjects)->0;
    let set = command->Update_set;
    assignments_unfold(set[0], set[1]);
    assert(set =~= seq![set[0], set[1]]);
    let filter = command->Update_filter;
    conditions_unfold(filter[0], filter[1]);
    assert(filter =~= seq![filter[0], filter[1]]);
    reveal_strlit("UPDATE facts SET subject_id = ?1, corroboration_inert = 1 WHERE subject_id = ?2 AND subject_group_id = ?3");
    reveal_strlit("UPDATE ");
    reveal_strlit("facts");
    reveal_strlit(" SET ");
    reveal_strlit("subject_id");
    reveal_strlit(" = ?");
    reveal_strlit(", ");
    reveal_strlit("corroboration_inert");
    reveal_strlit(" = 1");
    reveal_strlit(" WHERE ");
    reveal_strlit(" AND ");
    reveal_strlit("subject_group_id");
    assert(MergeStatement::RepointSubjects.text().sql@ =~= command.text());
}

proof fn repoint_objects_is_written()
    ensures
        MergeStatement::RepointObjects.text().sql@ == command_of(MergeStatement::RepointObjects)->0.text(),
{
    digits_unfold();
    let command = command_of(MergeStatement::RepointObjects)->0;
    let set = command->Update_set;
    assignments_unfold(set[0], set[1]);
    assert(set =~= seq![set[0], set[1]]);
    let filter = command->Update_filter;
    conditions_unfold(filter[0], filter[1]);
    assert(filter =~= seq![filter[0], filter[1]]);
    reveal_strlit("UPDATE facts SET object_id = ?1, corroboration_inert = 1 WHERE object_id = ?2 AND object_group_id = ?3");
    reveal_strlit("UPDATE ");
    reveal_strlit("facts");
    reveal_strlit(" SET ");
    reveal_strlit("object_id");
    reveal_strlit(" = ?");
    reveal_strlit(", ");
    reveal_strlit("corroboration_inert");
    reveal_strlit(" = 1");
    reveal_strlit(" WHERE ");
    reveal_strlit(" AND ");
    reveal_strlit("object_group_id");
    assert(MergeStatement::RepointObjects.text().sql@ =~= command.text());
}

proof fn repoint_edges_is_written()
    ensures
        MergeStatement::RepointEdges.text().sql@ == command_of(MergeStatement::RepointEdges)->0.text(),
{
    digits_unfold();
    let command = command_of(MergeStatement::RepointEdges)->0;
    let set = command->UpdateOrIgnore_set;
    assignments_unfold(set[0], set[0]);
    assert(set =~= seq![set[0]]);
    let filter = command->UpdateOrIgnore_filter;
    conditions_unfold(filter[0], filter[1]);
    assert(filter =~= seq![filter[0], filter[1]]);
    reveal_strlit("UPDATE OR IGNORE episodic_edges SET entity_id = ?1 WHERE entity_id = ?2 AND entity_group_id = ?3");
    reveal_strlit("UPDATE OR IGNORE ");
    reveal_strlit("episodic_edges");
    reveal_strlit(" SET ");
    reveal_strlit("entity_id");
    reveal_strlit(" = ?");
    reveal_strlit(" WHERE ");
    reveal_strlit(" AND ");
    reveal_strlit("entity_group_id");
    assert(MergeStatement::RepointEdges.text().sql@ =~= command.text());
}

proof fn drop_loser_edges_is_written()
    ensures
        MergeStatement::DropLoserEdges.text().sql@ == command_of(MergeStatement::DropLoserEdges)->0.text(),
{
    digits_unfold();
    let command = command_of(MergeStatement::DropLoserEdges)->0;
    let filter = command->Delete_filter;
    conditions_unfold(filter[0], filter[1]);
    assert(filter =~= seq![filter[0], filter[1]]);
    reveal_strlit("DELETE FROM episodic_edges WHERE entity_id = ?1 AND entity_group_id = ?2");
    reveal_strlit("DELETE FROM ");
    reveal_strlit("episodic_edges");
    reveal_strlit(" WHERE ");
    reveal_strlit("entity_id");
    reveal_strlit(" = ?");
    reveal_strlit(" AND ");
    reveal_strlit("entity_group_id");
    assert(MergeStatement::DropLoserEdges.text().sql@ =~= command.text());
}

proof fn expire_fact_is_written(i: usize)
    ensures
        MergeStatement::ExpireFact(i).text().sql@ == command_of(MergeStatement::ExpireFact(i))->0.text(),
{
    digits_unfold();
    let command = command_of(MergeStatement::ExpireFact(i))->0;
    let set = command->Update_set;
    assignments_unfold(set[0], set[0]);
    assert(set =~= seq![set[0]]);
    let filter = command->Update_filter;
    conditions_unfold(filter[0], filter[1]);
    assert(filter =~= seq![filter[0], filter[1]]);
    reveal_strlit("UPDATE facts SET expired_at = ?1 WHERE id = ?2 AND expired_at IS NULL");
    reveal_strlit("UPDATE ");
    reveal_strlit("facts");
    reveal_strlit(" SET ");
    reveal_strlit("expired_at");
    reveal_strlit(" = ?");
    reveal_strlit(" WHERE ");
    reveal_strlit("id");
    reveal_strlit(" AND ");
    reveal_strlit(" IS NULL");
    assert(MergeStatement::ExpireFact(i).text().sql@ =~= command.text());
}

proof fn add_access_is_written()
    ensures
        MergeStatement::AddAccess.text().sql@ == command_of(MergeStatement::AddAccess)->0.text(),
{
    digits_unfold();
    let command = command_of(MergeStatement::AddAccess)->0;
    let set = command->Update_set;
    assignments_unfold(set[0], set[0]);
    assert(set =~= seq![set[0]]);
    let filter = command->Update_filter;
    conditions_unfold(filter[0], filter[1]);
    assert(filter =~= seq![filter[0], filter[1]]);
    reveal_strlit("UPDATE entities SET access_count = access_count + ?1 WHERE id = ?2 AND group_id = ?3");
    reveal_strlit("UPDATE ");
    reveal_strlit("entities");
    reveal_strlit(" SET ");
    reveal_strlit("access_count");
    reveal_strlit(" = ");
    reveal_strlit(" + ?");
    reveal_strlit(" WHERE ");
    reveal_strlit("id");
    reveal_strlit(" = ?");
    reveal_strlit(" AND ");
    reveal_strlit("group_id");
    assert(MergeStatement::AddAccess.text().sql@ =~= command.text());
}

proof fn set_confidence_is_written(v: Binary32)
    ensures
        MergeStatement::SetConfidence(v).text().sql@ == command_of(MergeStatement::SetConfidence(v))->0.text(),
{
    digits_unfold();
    let command = command_of(MergeStatement::SetConfidence(v))->0;
    let set = command->Update_set;
    assignments_unfold(set[0], set[0]);
    assert(set =~= seq![set[0]]);
    let filter = command->Update_filter;
    conditions_unfold(filter[0], filter[1]);
    assert(filter =~= seq![filter[0], filter[1]]);
    reveal_strlit("UPDATE entities SET ner_confidence = ?1 WHERE id = ?2 AND group_id = ?3");
    reveal_strlit("UPDATE ");
    reveal_strlit("entities");
    reveal_strlit(" SET ");
    reveal_strlit("ner_confidence");
    reveal_strlit(" = ?");
    reveal_strlit(" WHERE ");
    reveal_strlit("id");
    reveal_strlit(" AND ");
    reveal_strlit("group_id");
    assert(MergeStatement::SetConfidence(v).text().sql@ =~= command.text());
}

proof fn delete_full_text_is_written()
    ensures
        MergeStatement::DeleteFullText.text().sql@ == command_of(MergeStatement::DeleteFullText)->0.text(),
{
    digits_unfold();
    let command = command_of(MergeStatement::DeleteFullText)->0;
    let filter = command->Delete_filter;
    conditions_unfold(filter[0], filter[0]);
    assert(filter =~= seq![filter[0]]);
    reveal_strlit("DELETE FROM entities_fts WHERE entity_id = ?1");
    reveal_strlit("DELETE FROM ");
    reveal_strlit("entities_fts");
    reveal_strlit(" WHERE ");
    reveal_strlit("entity_id");
    reveal_strlit(" = ?");
    assert(MergeStatement::DeleteFullText.text().sql@ =~= command.text());
}

proof fn delete_entity_is_written()
    ensures
        MergeStatement::DeleteEntity.text().sql@ == command_of(MergeStatement::DeleteEntity)->0.text(),
{
    digits_unfold();
    let command = command_of(MergeStatement::DeleteEntity)->0;
    let filter = command->Delete_filter;
    conditions_unfold(filter[0], filter[1]);
    assert(filter =~= seq![filter[0], filter[1]]);
    reveal_strlit("DELETE FROM entities WHERE id = ?1 AND group_id = ?2");
    reveal_strlit("DELETE FROM ");
    reveal_strlit("entities");
    reveal_strlit(" WHERE ");
    reveal_strlit("id");
    reveal_strlit(" = ?");
    reveal_strlit(" AND ");
    reveal_strlit("group_id");
    assert(MergeStatement::DeleteEntity.text().sql@ =~= command.text());
}

/// Every statement but the insert of the audit row is sent as the text of its command.
pub proof fn law_statements_are_written_as_commands(s: MergeStatement)
    ensures
        s is InsertAudit <==> command_of(s) is None,
        command_of(s) matches Some(command) ==> s.text().sql@ == command.text(),
{
    match s {
        MergeStatement::RepointSubjects => repoint_subjects_is_written(),
        MergeStatement::RepointObjects => repoint_objects_is_written(),
        MergeStatement::RepointEdges => repoint_edges_is_written(),
        MergeStatement::DropLoserEdges => drop_loser_edges_is_written(),
        MergeStatement::ExpireFact(i) => expire_fact_is_written(i),
        MergeStatement::AddAccess => add_access_is_written(),
        MergeStatement::SetConfidence(v) => set_confidence_is_written(v),
        MergeStatement::DeleteFullText => delete_full_text_is_written(),
        MergeStatement::DeleteEntity => delete_entity_is_written(),
        MergeStatement::InsertAudit => {},
    }
}

/// Two conditions on a fact, spelled out.
proof fn two_conditions_on_a_fact(
    filter: Seq<Condition>,
    f: FactView,
    params: Seq<StatementParam>,
    c: MergeContext,
)
    requires
        filter.len() == 2,
    ensures
        is_for_fact(filter, f, params, c) <==> meets(
            fact_column(f, looked_at(filter[0])),
            filter[0],
            params,
            c,
        ) && meets(fact_column(f, looked_at(filter[1])), filter[1], params, c),
{
}

/// The re-point of subjects is for every fact of the namespace whose subject is the loser,
/// live or expired, and for no other; that of objects likewise.
pub proof fn law_repoints_are_for_every_fact_of_the_loser(f: FactView, c: MergeContext)
    ensures
        is_for_fact(
            command_of(MergeStatement::RepointSubjects)->0->Update_filter,
            f,
            MergeStatement::RepointSubjects.text().params,
            c,
        ) <==> f.subject == c.m.loser && f.subject_group == c.m.group,
        is_for_fact(
            command_of(MergeStatement::RepointObjects)->0->Update_filter,
            f,
            MergeStatement::RepointObjects.text().params,
            c,
        ) <==> f.object == Some(c.m.loser) && f.object_group == Some(c.m.group),
{
    two_conditions_on_a_fact(
        command_of(MergeStatement::RepointSubjects)->0->Update_filter,
        f,
        MergeStatement::RepointSubjects.text().params,
        c,
    );
    two_conditions_on_a_fact(
        command_of(MergeStatement::RepointObjects)->0->Update_filter,
        f,
        MergeStatement::RepointObjects.text().params,
        c,
    );
}

proof fn repoint_does(t: TablesView, s: MergeStatement, c: MergeContext)
    requires
        s is RepointSubjects || s is RepointObjects,
    ensures
        does(command_of(s)->0, s.text().params, c, t, tables_after(t, s, c)),
{
    let set = command_of(s)->0->Update_set;
    let filter = command_of(s)->0->Update_filter;
    let params = s.text().params;
    let after = tables_after(t, s, c);
    assert(is_set(set, assigned_to(set[0])));
    assert(is_set(set, assigned_to(set[1])));
    assert forall|x: int| 0 <= x < t.facts.len() implies if is_for_fact(
        filter,
        #[trigger] t.facts[x],
        params,
        c,
    ) {
        sets_fact(set, t.facts[x], after.facts[x], params, c)
    } else {
        after.facts[x] == t.facts[x]
    } by {
        law_repoints_are_for_every_fact_of_the_loser(t.facts[x], c);
    }
}

proof fn expire_does(t: TablesView, i: usize, c: MergeContext)
    requires
        i < c.doomed.len(),
    ensures
        does(
            command_of(MergeStatement::ExpireFact(i))->0,
            MergeStatement::ExpireFact(i).text().params,
            c,
            t,
            tables_after(t, MergeStatement::ExpireFact(i), c),
        ),
{
    let s = MergeStatement::ExpireFact(i);
    let set = command_of(s)->0->Update_set;
    let filter = command_of(s)->0->Update_filter;
    let params = s.text().params;
    let after = tables_after(t, s, c);
    assert(is_set(set, assigned_to(set[0])));
    assert forall|x: int| 0 <= x < t.facts.len() implies if is_for_fact(
        filter,
        #[trigger] t.facts[x],
        params,
        c,
    ) {
        sets_fact(set, t.facts[x], after.facts[x], params, c)
    } else {
        after.facts[x] == t.facts[x]
    } by {
        two_conditions_on_a_fact(filter, t.facts[x], params, c);
        assert(after.facts[x] == expired_by(t.facts[x], c.doomed[i as int]));
    }
}

proof fn entity_update_does(t: TablesView, s: MergeStatement, c: MergeContext)
    requires
        s is AddAccess || s is SetConfidence,
    ensures
        does(command_of(s)->0, s.text().params, c, t, tables_after(t, s, c)),
{
    let set = command_of(s)->0->Update_set;
    let filter = command_of(s)->0->Update_filter;
    let params = s.text().params;
    let after = tables_after(t, s, c);
    assert(is_set(set, assigned_to(set[0])));
    assert forall|x: int| 0 <= x < t.entities.len() implies if is_for_entity(
        filter,
        #[trigger] t.entities[x],
        params,
        c,
    ) {
        sets_entity(set, t.entities[x], after.entities[x], params, c)
    } else {
        after.entities[x] == t.entities[x]
    } by {
        let e = t.entities[x];
        assert(filter[0] == Condition::Is(Column::Id, 2));
        assert(filter[1] == Condition::Is(Column::GroupId, 3));
        assert(is_for_entity(filter, e, params, c) <==> e.is(c.m.keeper, c.m.group));
        match s {
            MergeStatement::SetConfidence(v) => {
                assert(after.entities[x] == confidence_set(e, c, v));
            },
            _ => {
                assert(after.entities[x] == access_added(e, c));
            },
        }
    }
}

proof fn edge_repoint_does(t: TablesView, c: MergeContext)
    ensures
        does(
            command_of(MergeStatement::RepointEdges)->0,
            MergeStatement::RepointEdges.text().params,
            c,
            t,
            tables_after(t, MergeStatement::RepointEdges, c),
        ),
{
    let s = MergeStatement::RepointEdges;
    let set = command_of(s)->0->UpdateOrIgnore_set;
    let filter = command_of(s)->0->UpdateOrIgnore_filter;
    let params = s.text().params;
    let after = tables_after(t, s, c);
    assert(is_set(set, assigned_to(set[0])));
    assert forall|x: int| 0 <= x < t.edges.len() implies if is_for_edge(
        filter,
        #[trigger] t.edges[x],
        params,
        c,
    ) {
        ||| sets_edge(set, t.edges[x], after.edges[x], params, c) && !key_is_taken(
            t.edges,
            after.edges[x],
        )
        ||| after.edges[x] == t.edges[x] && exists|e: EdgeView| #[trigger]
            sets_edge(set, t.edges[x], e, params, c) && key_is_taken(t.edges, e)
    } else {
        after.edges[x] == t.edges[x]
    } by {
        let e = t.edges[x];
        assert(filter[0] == Condition::Is(Column::EntityId, 2));
        assert(filter[1] == Condition::Is(Column::EntityGroupId, 3));
        assert(is_for_edge(filter, e, params, c) <==> e.of(c.m.loser, c.m.group));
        assert(after.edges[x] == edge_moved(e, t.edges, c.m));
        if e.of(c.m.loser, c.m.group) {
            let moved = EdgeView { entity: c.m.keeper, ..e };
            assert(sets_edge(set, e, moved, params, c));
            if keeper_has(t.edges, e.episode_id, c.m) {
                let y = choose|y: int|
                    0 <= y < t.edges.len() && (#[trigger] t.edges[y]).of(c.m.keeper, c.m.group)
                        && t.edges[y].episode_id == e.episode_id;
                assert(same_edge_key(t.edges[y], moved));
                assert(key_is_taken(t.edges, moved));
            } else if key_is_taken(t.edges, moved) {
                let y = choose|y: int|
                    0 <= y < t.edges.len() && same_edge_key(#[trigger] t.edges[y], moved);
                assert(t.edges[y].of(c.m.keeper, c.m.group));
            }
        }
    }
}

proof fn edges_without_is_selected(
    edges: Seq<EdgeView>,
    id: Seq<char>,
    group: Seq<char>,
    n: nat,
    keep: spec_fn(int) -> bool,
)
    requires
        n <= edges.len(),
        forall|k: int| 0 <= k < n ==> #[trigger] keep(k) == !edges[k].of(id, group),
    ensures
        selects(edges_without(edges.take(n as int), id, group), n, keep, |k: int| edges[k]),
    decreases n,
{
    let value = |k: int| edges[k];
    if n == 0 {
        assert(edges.take(0) =~= Seq::<EdgeView>::empty());
        selects_from_none(keep, value);
    } else {
        edges_without_is_selected(edges, id, group, (n - 1) as nat, keep);
        assert(edges.take(n as int).drop_last() =~= edges.take(n - 1));
        assert(edges.take(n as int).last() == edges[n - 1]);
        assert(keep(n - 1) == !edges[n - 1].of(id, group));
        selects_one_more(
            edges_without(edges.take(n - 1), id, group),
            edges_without(edges.take(n as int), id, group),
            (n - 1) as nat,
            keep,
            value,
        );
    }
}

proof fn entities_without_is_selected(
    entities: Seq<EntityView>,
    id: Seq<char>,
    group: Seq<char>,
    n: nat,
    keep: spec_fn(int) -> bool,
)
    requires
        n <= entities.len(),
        forall|k: int| 0 <= k < n ==> #[trigger] keep(k) == !entities[k].is(id, group),
    ensures
        selects(entities_without(entities.take(n as int), id, group), n, keep, |k: int| entities[k]),
    decreases n,
{
    let value = |k: int| entities[k];
    if n == 0 {
        assert(entities.take(0) =~= Seq::<EntityView>::empty());
        selects_from_none(keep, value);
    } else {
        entities_without_is_selected(entities, id, group, (n - 1) as nat, keep);
        assert(entities.take(n as int).drop_last() =~= entities.take(n - 1));
        assert(entities.take(n as int).last() == entities[n - 1]);
        assert(keep(n - 1) == !entities[n - 1].is(id, group));
        selects_one_more(
            entities_without(entities.take(n - 1), id, group),
            entities_without(entities.take(n as int), id, group),
            (n - 1) as nat,
            keep,
            value,
        );
    }
}

proof fn delete_does(t: TablesView, s: MergeStatement, c: MergeContext)
    requires
        s is DropLoserEdges || s is DeleteEntity,
    ensures
        does(command_of(s)->0, s.text().params, c, t, tables_after(t, s, c)),
{
    let filter = command_of(s)->0->Delete_filter;
    let params = s.text().params;
    let m = c.m;
    if s is DropLoserEdges {
        let keep = |k: int| !is_for_edge(filter, t.edges[k], params, c);
        assert forall|k: int| 0 <= k < t.edges.len() implies #[trigger] keep(k) == !t.edges[k].of(
            m.loser,
            m.group,
        ) by {
            assert(filter[0] == Condition::Is(Column::EntityId, 1));
            assert(filter[1] == Condition::Is(Column::EntityGroupId, 2));
        }
        edges_without_is_selected(t.edges, m.loser, m.group, t.edges.len(), keep);
        assert(t.edges.take(t.edges.len() as int) =~= t.edges);
    } else {
        let keep = |k: int| !is_for_entity(filter, t.entities[k], params, c);
        assert forall|k: int| 0 <= k < t.entities.len() implies #[trigger] keep(k)
            == !t.entities[k].is(m.loser, m.group) by {
            assert(filter[0] == Condition::Is(Column::Id, 1));
            assert(filter[1] == Condition::Is(Column::GroupId, 2));
        }
        entities_without_is_selected(t.entities, m.loser, m.group, t.entities.len(), keep);
        assert(t.entities.take(t.entities.len() as int) =~= t.entities);
    }
}

/// What a statement is taken to do to the tables is what its command, with the parameters
/// that are sent along, makes of them: the rows that meet every condition are set or deleted,
/// and no other row is touched.
pub proof fn law_commands_do_what_statements_mean(t: TablesView, s: MergeStatement, c: MergeContext)
    requires
        s matches MergeStatement::ExpireFact(i) ==> i < c.doomed.len(),
    ensures
        command_of(s) matches Some(command) ==> does(
            command,
            s.text().params,
            c,
            t,
            tables_after(t, s, c),
        ),
        s is InsertAudit ==> tables_after(t, s, c) == t,
{
    match s {
        MergeStatement::RepointSubjects => repoint_does(t, s, c),
        MergeStatement::RepointObjects => repoint_does(t, s, c),
        MergeStatement::RepointEdges => edge_repoint_does(t, c),
        MergeStatement::DropLoserEdges => delete_does(t, s, c),
        MergeStatement::ExpireFact(i) => expire_does(t, i, c),
        MergeStatement::AddAccess => entity_update_does(t, s, c),
        MergeStatement::SetConfidence(_) => entity_update_does(t, s, c),
        MergeStatement::DeleteFullText => {},
        MergeStatement::DeleteEntity => delete_does(t, s, c),
        MergeStatement::InsertAudit => {},
    }
}

/// The delete of full-text rows is for every row of the loser and for no other, and the rest
/// keeps its order.
pub proof fn law_full_text_delete_is_for_the_loser(rows: Seq<Seq<char>>, c: MergeContext)
    ensures
        selects(
            full_text_without(rows, c.m.loser),
            rows.len(),
            |k: int|
                !is_for_full_text(
                    command_of(MergeStatement::DeleteFullText)->0->Delete_filter,
                    rows[k],
                    MergeStatement::DeleteFullText.text().params,
                    c,
                ),
            |k: int| rows[k],
        ),
{
    full_text_is_selected(rows, c, rows.len());
    assert(rows.take(rows.len() as int) =~= rows);
}

proof fn full_text_is_selected(rows: Seq<Seq<char>>, c: MergeContext, n: nat)
    requires
        n <= rows.len(),
    ensures
        selects(
            full_text_without(rows.take(n as int), c.m.loser),
            n,
            |k: int|
                !is_for_full_text(
                    command_of(MergeStatement::DeleteFullText)->0->Delete_filter,
                    rows[k],
                    MergeStatement::DeleteFullText.text().params,
                    c,
                ),
            |k: int| rows[k],
        ),
    decreases n,
{
    let filter = command_of(MergeStatement::DeleteFullText)->0->Delete_filter;
    let params = MergeStatement::DeleteFullText.text().params;
    let keep = |k: int|
        !is_for_full_text(
            command_of(MergeStatement::DeleteFullText)->0->Delete_filter,
            rows[k],
            MergeStatement::DeleteFullText.text().params,
            c,
        );
    let value = |k: int| rows[k];
    if n == 0 {
        assert(rows.take(0) =~= Seq::<Seq<char>>::empty());
        selects_from_none(keep, value);
    } else {
        full_text_is_selected(rows, c, (n - 1) as nat);
        assert(rows.take(n as int).drop_last() =~= rows.take(n - 1));
        assert(rows.take(n as int).last() == rows[n - 1]);
        assert(filter[0] == Condition::Is(Column::EntityId, 1));
        assert(is_for_full_text(filter, rows[n - 1], params, c) <==> rows[n - 1] == c.m.loser);
        selects_one_more(
            full_text_without(rows.take(n - 1), c.m.loser),
            full_text_without(rows.take(n as int), c.m.loser),
            (n - 1) as nat,
            keep,
            value,
        );
    }
}

}
