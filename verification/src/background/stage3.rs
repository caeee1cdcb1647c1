//! Storing the rows of one episode.
//!
//! Each row takes three inserts: the entity, its full-text row and the episodic
//! edge. A failure of one of the first two ends the write with an error. The edge is
//! soft: when its insert fails, the row still counts and only the edge's own event
//! is left out.

use vstd::prelude::*;
use vstd::string::StringExecFns;
use crate::background::verify_stage::EntityWrite;
use crate::error::Error;
use crate::text::owned;

verus! {

/// The insert that the write waits on.
#[derive(Debug, Clone, Copy, PartialEq, Eq, Structural)]
pub enum Stage3Point {
    Entity,
    FullText,
    Edge,
    Finished,
}

/// Something to be issued, about the row with the given index.
#[derive(Debug, Clone, Copy, PartialEq, Eq, Structural)]
pub enum Stage3Notice {
    /// Tell the sink that the entity was extracted.
    EntityExtracted(usize),
    /// Tell the sink that the `mention` edge was added.
    EdgeAdded(usize),
    /// Count the row as persisted.
    Persisted(usize),
}

/// What the write needs done next, for the row with the given index.
#[derive(Debug)]
pub enum Stage3Request {
    InsertEntity(usize),
    InsertFullText(usize),
    InsertEdge(usize),
    Finish(Result<usize, Error>),
}

/// What a [`Stage3Request`] says.
pub enum Stage3RequestView {
    InsertEntity(usize),
    InsertFullText(usize),
    InsertEdge(usize),
    /// All rows are stored; there are this many.
    Stored(usize),
    /// The write failed with [`Error::Other`] and this message.
    Failed(Seq<char>),
}

impl View for Stage3Request {
    type V = Stage3RequestView;

    open spec fn view(&self) -> Stage3RequestView {
        match *self {
            Stage3Request::InsertEntity(i) => Stage3RequestView::InsertEntity(i),
            Stage3Request::InsertFullText(i) => Stage3RequestView::InsertFullText(i),
            Stage3Request::InsertEdge(i) => Stage3RequestView::InsertEdge(i),
            Stage3Request::Finish(Ok(n)) => Stage3RequestView::Stored(n),
            Stage3Request::Finish(Err(e)) => Stage3RequestView::Failed(e.text()),
        }
    }
}

/// The write of one episode's rows.
#[derive(Debug)]
pub struct Stage3Write {
    pub rows: Vec<EntityWrite>,
    /// The row being stored; every row before it is stored.
    pub current: usize,
    pub point: Stage3Point,
}

/// One transition of the write.
pub struct Stage3Transition {
    pub current: int,
    pub point: Stage3Point,
    pub notices: Seq<Stage3Notice>,
    pub request: Stage3RequestView,
}

/// Message of a failed insert.
pub open spec fn insert_failure(table: Seq<char>, entity_id: Seq<char>, detail: Seq<char>) -> Seq<
    char,
> {
    table + entity_id + "': "@ + detail
}

/// Goes on with row `i`, or finishes when there is none.
pub open spec fn row_request(rows: Seq<EntityWrite>, i: int) -> (Stage3Point, Stage3RequestView) {
    if i < rows.len() {
        (Stage3Point::Entity, Stage3RequestView::InsertEntity(i as usize))
    } else {
        (Stage3Point::Finished, Stage3RequestView::Stored(rows.len() as usize))
    }
}

/// How the write answers the outcome of the last insert.
pub open spec fn stage3_transition(
    rows: Seq<EntityWrite>,
    current: int,
    point: Stage3Point,
    reply: Result<(), String>,
) -> Stage3Transition {
    let id = rows[current].entity_id@;
    match point {
        Stage3Point::Entity => match reply {
            Ok(_) => Stage3Transition {
                current,
                point: Stage3Point::FullText,
                notices: seq![Stage3Notice::EntityExtracted(current as usize)],
                request: Stage3RequestView::InsertFullText(current as usize),
            },
            Err(detail) => Stage3Transition {
                current,
                point: Stage3Point::Finished,
                notices: seq![],
                request: Stage3RequestView::Failed(
                    insert_failure("stage3_write INSERT entity '"@, id, detail@),
                ),
            },
        },
        Stage3Point::FullText => match reply {
            Ok(_) => Stage3Transition {
                current,
                point: Stage3Point::Edge,
                notices: seq![],
                request: Stage3RequestView::InsertEdge(current as usize),
            },
            Err(detail) => Stage3Transition {
                current,
                point: Stage3Point::Finished,
                notices: seq![],
                request: Stage3RequestView::Failed(
                    insert_failure("stage3_write FTS INSERT entity '"@, id, detail@),
                ),
            },
        },
        _ => Stage3Transition {
            current: current + 1,
            point: row_request(rows, current + 1).0,
            notices: match reply {
                Ok(_) => seq![
                    Stage3Notice::EdgeAdded(current as usize),
                    Stage3Notice::Persisted(current as usize),
                ],
                Err(_) => seq![Stage3Notice::Persisted(current as usize)],
            },
            request: row_request(rows, current + 1).1,
        },
    }
}

/// Renders the message of a failed insert.
fn insert_failure_message(table: &str, entity_id: &String, detail: &String) -> (r: String)
    ensures
        r@ == insert_failure(table@, entity_id@, detail@),
{
    let mut out: String = owned(table);
    out.append(entity_id.as_str());
    out.append("': ");
    out.append(detail.as_str());
    out
}

impl Stage3Write {
    /// While the write goes on, its current row exists.
    pub open spec fn wf(self) -> bool {
        self.point != Stage3Point::Finished ==> self.current < self.rows.len()
    }

    /// Starts the write of `rows`.
    pub fn start(rows: Vec<EntityWrite>) -> (r: (Stage3Write, Stage3Request))
        ensures
            r.0.wf(),
            r.0.rows == rows,
            r.0.current == 0,
            (r.0.point, r.1@) == row_request(rows@, 0),
    {
        if rows.len() == 0 {
            (
                Stage3Write { rows, current: 0, point: Stage3Point::Finished },
                Stage3Request::Finish(Ok(0)),
            )
        } else {
            (
                Stage3Write { rows, current: 0, point: Stage3Point::Entity },
                Stage3Request::InsertEntity(0),
            )
        }
    }

    /// Takes the outcome of the last insert, `Err` with the store's own message, and
    /// says what follows.
    pub fn step(&mut self, reply: Result<(), String>) -> (r: (Vec<Stage3Notice>, Stage3Request))
        requires
            old(self).wf(),
            old(self).point != Stage3Point::Finished,
        ensures
            final(self).wf(),
            final(self).rows == old(self).rows,
            ({
                let t = stage3_transition(
                    old(self).rows@,
                    old(self).current as int,
                    old(self).point,
                    reply,
                );
                &&& final(self).current == t.current
                &&& final(self).point == t.point
                &&& r.0@ == t.notices
                &&& r.1@ == t.request
                &&& r.1 matches Stage3Request::Finish(Err(e)) ==> e is Other
            }),
    {
        let i: usize = self.current;
        match self.point {
            Stage3Point::Entity => match reply {
                Ok(_) => {
                    self.point = Stage3Point::FullText;
                    (vec![Stage3Notice::EntityExtracted(i)], Stage3Request::InsertFullText(i))
                },
                Err(detail) => {
                    let message = insert_failure_message(
                        "stage3_write INSERT entity '",
                        &self.rows[i].entity_id,
                        &detail,
                    );
                    self.point = Stage3Point::Finished;
                    (vec![], Stage3Request::Finish(Err(Error::Other(message))))
                },
            },
            Stage3Point::FullText => match reply {
                Ok(_) => {
                    self.point = Stage3Point::Edge;
                    (vec![], Stage3Request::InsertEdge(i))
                },
                Err(detail) => {
                    let message = insert_failure_message(
                        "stage3_write FTS INSERT entity '",
                        &self.rows[i].entity_id,
                        &detail,
                    );
                    self.point = Stage3Point::Finished;
                    (vec![], Stage3Request::Finish(Err(Error::Other(message))))
                },
            },
            _ => {
                let notices = match reply {
                    Ok(_) => vec![Stage3Notice::EdgeAdded(i), Stage3Notice::Persisted(i)],
                    Err(_) => vec![Stage3Notice::Persisted(i)],
                };
                self.current = i + 1;
                if i + 1 < self.rows.len() {
                    self.point = Stage3Point::Entity;
                    (notices, Stage3Request::InsertEntity(i + 1))
                } else {
                    self.point = Stage3Point::Finished;
                    (notices, Stage3Request::Finish(Ok(self.rows.len())))
                }
            },
        }
    }
}

/// The rows that a run of replies has stored, starting at row `current`.
pub open spec fn stored_by(
    rows: Seq<EntityWrite>,
    current: int,
    point: Stage3Point,
    replies: Seq<Result<(), String>>,
) -> Seq<usize>
    decreases replies.len(),
{
    if replies.len() == 0 || point == Stage3Point::Finished {
        seq![]
    } else {
        let t = stage3_transition(rows, current, point, replies[0]);
        let here = if t.notices.len() > 0 && t.notices.last() is Persisted {
            seq![t.notices.last()->Persisted_0]
        } else {
            seq![]
        };
        here + stored_by(rows, t.current, t.point, replies.drop_first())
    }
}

/// How a run of replies ended; `None` while it goes on.
pub open spec fn stage3_ending(
    rows: Seq<EntityWrite>,
    current: int,
    point: Stage3Point,
    replies: Seq<Result<(), String>>,
) -> Option<Stage3RequestView>
    decreases replies.len(),
{
    if replies.len() == 0 || point == Stage3Point::Finished {
        None
    } else {
        let t = stage3_transition(rows, current, point, replies[0]);
        match t.request {
            Stage3RequestView::Stored(_) => Some(t.request),
            Stage3RequestView::Failed(_) => Some(t.request),
            _ => stage3_ending(rows, t.current, t.point, replies.drop_first()),
        }
    }
}

/// Rows are stored in order and without gaps, each once. A write that reports
/// success has stored every row and reports their number.
pub proof fn law_rows_stored_in_order(
    rows: Seq<EntityWrite>,
    current: int,
    point: Stage3Point,
    replies: Seq<Result<(), String>>,
)
    requires
        rows.len() <= usize::MAX,
        0 <= current < rows.len(),
        point != Stage3Point::Finished,
    ensures
        ({
            let stored = stored_by(rows, current, point, replies);
            &&& current + stored.len() <= rows.len()
            &&& forall|k: int| 0 <= k < stored.len() ==> #[trigger] stored[k] == current + k
            &&& stage3_ending(rows, current, point, replies) matches Some(
                Stage3RequestView::Stored(n),
            ) ==> n == rows.len() && current + stored.len() == rows.len()
        }),
    decreases replies.len(),
{
    if replies.len() > 0 {
        let t = stage3_transition(rows, current, point, replies[0]);
        let rest = replies.drop_first();
        let tail = stored_by(rows, t.current, t.point, rest);
        let stored = stored_by(rows, current, point, replies);
        if t.point == Stage3Point::Finished {
            assert(tail =~= seq![]);
        } else {
            law_rows_stored_in_order(rows, t.current, t.point, rest);
        }
        if point == Stage3Point::Edge {
            assert(t.notices.last() == Stage3Notice::Persisted(current as usize));
            assert(stored =~= seq![current as usize] + tail);
            assert forall|k: int| 0 <= k < stored.len() implies #[trigger] stored[k] == current
                + k by {
                if k > 0 {
                    assert(stored[k] == tail[k - 1]);
                }
            }
        } else {
            assert(stored =~= tail);
        }
    }
}

/// The way of one row. Its three inserts follow each other, and the next row is begun behind
/// the third. The sink hears of the entity once it is stored, of the edge exactly when its
/// insert succeeded, and the row counts as stored either way.
pub proof fn law_row_takes_three_inserts(
    rows: Seq<EntityWrite>,
    current: int,
    point: Stage3Point,
    reply: Result<(), String>,
)
    requires
        rows.len() <= usize::MAX,
        0 <= current < rows.len(),
        point != Stage3Point::Finished,
        point == Stage3Point::Edge || reply is Ok,
    ensures
        ({
            let t = stage3_transition(rows, current, point, reply);
            match point {
                Stage3Point::Entity => t.current == current && t.point == Stage3Point::FullText
                    && t.request == Stage3RequestView::InsertFullText(current as usize)
                    && t.notices.len() == 1 && t.notices[0] == Stage3Notice::EntityExtracted(
                    current as usize,
                ),
                Stage3Point::FullText => t.current == current && t.point == Stage3Point::Edge
                    && t.request == Stage3RequestView::InsertEdge(current as usize)
                    && t.notices.len() == 0,
                _ => {
                    &&& t.current == current + 1
                    &&& t.notices.len() == (if reply is Ok {
                        2int
                    } else {
                        1int
                    })
                    &&& t.notices.last() == Stage3Notice::Persisted(current as usize)
                    &&& reply is Ok ==> t.notices[0] == Stage3Notice::EdgeAdded(current as usize)
                    &&& current + 1 < rows.len() ==> t.point == Stage3Point::Entity && t.request
                        == Stage3RequestView::InsertEntity((current + 1) as usize)
                    &&& current + 1 == rows.len() ==> t.point == Stage3Point::Finished && t.request
                        == Stage3RequestView::Stored(rows.len() as usize)
                },
            }
        }),
{
}

/// A failed insert of the entity or of its full-text row ends the write at once, with a
/// message that says which insert it was, of which entity, and what the store said.
pub proof fn law_failed_insert_ends_the_write(
    rows: Seq<EntityWrite>,
    current: int,
    point: Stage3Point,
    detail: String,
)
    requires
        0 <= current < rows.len(),
        point == Stage3Point::Entity || point == Stage3Point::FullText,
    ensures
        ({
            let t = stage3_transition(rows, current, point, Err(detail));
            &&& t.point == Stage3Point::Finished
            &&& t.current == current
            &&& t.notices.len() == 0
            &&& point == Stage3Point::Entity ==> t.request == Stage3RequestView::Failed(
                "stage3_write INSERT entity '"@ + rows[current].entity_id@ + "': "@ + detail@,
            )
            &&& point == Stage3Point::FullText ==> t.request == Stage3RequestView::Failed(
                "stage3_write FTS INSERT entity '"@ + rows[current].entity_id@ + "': "@ + detail@,
            )
        }),
{
}

/// A write begins with its first row, and one of no rows is over at once.
pub proof fn law_write_begins_with_the_first_row(rows: Seq<EntityWrite>)
    ensures
        rows.len() > 0 ==> row_request(rows, 0) == (
            Stage3Point::Entity,
            Stage3RequestView::InsertEntity(0),
        ),
        rows.len() == 0 ==> row_request(rows, 0) == (
            Stage3Point::Finished,
            Stage3RequestView::Stored(0),
        ),
{
}

/// A request says what it asks for.
pub proof fn law_request_is_read_as_it_is(r: Stage3Request)
    ensures
        match r {
            Stage3Request::InsertEntity(i) => r@ == Stage3RequestView::InsertEntity(i),
            Stage3Request::InsertFullText(i) => r@ == Stage3RequestView::InsertFullText(i),
            Stage3Request::InsertEdge(i) => r@ == Stage3RequestView::InsertEdge(i),
            Stage3Request::Finish(Ok(n)) => r@ == Stage3RequestView::Stored(n),
            Stage3Request::Finish(Err(e)) => r@ == Stage3RequestView::Failed(e.text()),
        },
{
}

}
