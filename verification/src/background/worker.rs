//! The worker loop as a state machine.
//!
//! One worker serves a channel of first-phase requests and a queue of second-phase
//! requests of its own. First-phase work has priority: a second-phase request is
//! taken only when the channel is idle, or when all senders are gone.
//!
//! When the stop flag is up, the worker still runs the first phase of everything in
//! the channel, abandons its second-phase queue, closes every open batch as
//! interrupted and exits.

use vstd::prelude::*;
use std::collections::VecDeque;
use vstd::string::StringExecFns;
use crate::background::batch_tracker::{
    ended, BatchEntry, BatchPhase2Complete, BatchProgress, BatchTracker, DeferredOutcome,
};
use crate::background::{DeferredRequest, IngestRequest, Timestamp};
use crate::text::{owned, render_i64, signed_decimal};

verus! {

/// Second-phase requests between two checkpoints.
pub const CHECKPOINT_INTERVAL: u64 = 10;

/// What the worker needs done next.
#[derive(Debug)]
pub enum WorkerRequest {
    /// Read the stop flag; the reply is [`WorkerReply::Stop`].
    ReadStop,
    /// Wait a moment for a request; the reply is `Received`, `Idle` or `Disconnected`.
    Receive,
    /// Take a request if there is one; the reply is `Received` or `Empty`.
    TryReceive,
    /// Run the first phase; the reply is [`WorkerReply::ItemDone`].
    ProcessItem(IngestRequest),
    /// Run the second phase; the reply is [`WorkerReply::DeferredDone`].
    ProcessDeferred(DeferredRequest),
    /// Leave the loop.
    Exit,
}

/// How a request of the worker was answered.
#[derive(Debug)]
pub enum WorkerReply {
    Stop(bool),
    Received(IngestRequest),
    Idle,
    Disconnected,
    Empty,
    /// The second-phase request that the first phase led to, if any.
    ItemDone(Option<DeferredRequest>),
    DeferredDone(DeferredOutcome),
}

/// Something that the worker issues without waiting for an outcome.
#[derive(Debug)]
pub enum WorkerNotice {
    /// A batch ran to its end.
    BatchClosed(BatchPhase2Complete),
    /// A batch was cut off.
    BatchInterrupted(BatchPhase2Complete),
    /// Record the episode as the resume point.
    Checkpoint(i64),
    /// So many second-phase requests were given up.
    Abandoned(usize),
}

/// Where the worker stands.
#[derive(Debug, Clone, Copy, PartialEq, Eq, Structural)]
pub enum WorkerPoint {
    /// About to look at the stop flag.
    Top,
    /// Waiting for a request.
    Receiving,
    /// Running the first phase of a request.
    Item,
    /// Running the second phase of a request.
    Deferred,
    /// Emptying the channel because of the stop flag.
    StopDrain,
    /// Running the first phase of a request while emptying the channel.
    StopItem,
    /// Emptying the channel because all senders are gone.
    ClosedDrain,
    /// Running the first phase of a request while emptying the channel.
    ClosedItem,
    /// Looking at the stop flag before the next second-phase request.
    DeferredDrain,
    /// Running the second phase of a request after the channel was emptied.
    DrainDeferred,
    /// Out of the loop.
    Exited,
}

impl WorkerPoint {
    /// `reply` answers the request that was made at this point.
    pub open spec fn expects(self, reply: WorkerReply) -> bool {
        match self {
            WorkerPoint::Top => reply is Stop,
            WorkerPoint::Receiving => reply is Received || reply is Idle || reply is Disconnected,
            WorkerPoint::Item => reply is ItemDone,
            WorkerPoint::Deferred => reply is DeferredDone,
            WorkerPoint::StopDrain => reply is Received || reply is Empty,
            WorkerPoint::StopItem => reply is ItemDone,
            WorkerPoint::ClosedDrain => reply is Received || reply is Empty,
            WorkerPoint::ClosedItem => reply is ItemDone,
            WorkerPoint::DeferredDrain => reply is Stop,
            WorkerPoint::DrainDeferred => reply is DeferredDone,
            WorkerPoint::Exited => false,
        }
    }
}

/// The batch and the episode of the second-phase request that is being run.
#[derive(Debug, Clone)]
pub struct Running {
    pub batch_id: Option<String>,
    pub episode_id: i64,
}

/// The worker.
#[derive(Debug)]
pub struct Worker {
    /// Second-phase requests, oldest first.
    pub deferred: VecDeque<DeferredRequest>,
    /// Second-phase requests that ended.
    pub processed: u64,
    /// The second-phase request that is being run.
    pub running: Option<Running>,
    pub point: WorkerPoint,
}

/// Abstract state of a [`Worker`].
pub struct WorkerView {
    pub deferred: Seq<DeferredRequest>,
    pub processed: u64,
    pub running: Option<Running>,
    pub point: WorkerPoint,
}

impl View for Worker {
    type V = WorkerView;

    open spec fn view(&self) -> WorkerView {
        WorkerView {
            deferred: self.deferred@,
            processed: self.processed,
            running: self.running,
            point: self.point,
        }
    }
}

/// The worker's next state and request, without what it issues.
pub struct WorkerTransition {
    pub worker: WorkerView,
    pub request: WorkerRequest,
}

/// Queues what the first phase led to and goes on at `point`.
pub open spec fn item_done(
    w: WorkerView,
    next: Option<DeferredRequest>,
    point: WorkerPoint,
    request: WorkerRequest,
) -> WorkerTransition {
    WorkerTransition {
        worker: WorkerView {
            deferred: match next {
                Some(d) => w.deferred.push(d),
                None => w.deferred,
            },
            point,
            ..w
        },
        request,
    }
}

/// Takes the oldest second-phase request and runs it at `point`.
pub open spec fn run_oldest(w: WorkerView, point: WorkerPoint) -> WorkerTransition {
    let d = w.deferred[0];
    WorkerTransition {
        worker: WorkerView {
            deferred: w.deferred.drop_first(),
            running: Some(Running { batch_id: d.batch_id, episode_id: d.episode_id }),
            point,
            ..w
        },
        request: WorkerRequest::ProcessDeferred(d),
    }
}

/// Goes to `point` with `request` and nothing else.
pub open spec fn moves(w: WorkerView, point: WorkerPoint, request: WorkerRequest) -> WorkerTransition {
    WorkerTransition { worker: WorkerView { point, ..w }, request }
}

/// After a second-phase request ended, or the channel was emptied after its senders
/// were gone: look at the stop flag again while requests are left, else exit.
pub open spec fn drain_on(w: WorkerView) -> WorkerTransition {
    if w.deferred.len() == 0 {
        moves(w, WorkerPoint::Exited, WorkerRequest::Exit)
    } else {
        moves(w, WorkerPoint::DeferredDrain, WorkerRequest::ReadStop)
    }
}

/// The worker after the second-phase request it was running has ended.
pub open spec fn counted(w: WorkerView) -> WorkerView {
    WorkerView { processed: (w.processed + 1) as u64, running: None, ..w }
}

/// How the worker answers a reply.
pub open spec fn worker_transition(w: WorkerView, reply: WorkerReply) -> WorkerTransition {
    match (w.point, reply) {
        (WorkerPoint::Top, WorkerReply::Stop(true)) => moves(
            w,
            WorkerPoint::StopDrain,
            WorkerRequest::TryReceive,
        ),
        (WorkerPoint::Top, WorkerReply::Stop(false)) => moves(
            w,
            WorkerPoint::Receiving,
            WorkerRequest::Receive,
        ),
        (WorkerPoint::Receiving, WorkerReply::Received(req)) => moves(
            w,
            WorkerPoint::Item,
            WorkerRequest::ProcessItem(req),
        ),
        (WorkerPoint::Receiving, WorkerReply::Idle) => if w.deferred.len() == 0 {
            moves(w, WorkerPoint::Top, WorkerRequest::ReadStop)
        } else {
            run_oldest(w, WorkerPoint::Deferred)
        },
        (WorkerPoint::Receiving, WorkerReply::Disconnected) => moves(
            w,
            WorkerPoint::ClosedDrain,
            WorkerRequest::TryReceive,
        ),
        (WorkerPoint::Item, WorkerReply::ItemDone(next)) => item_done(
            w,
            next,
            WorkerPoint::Top,
            WorkerRequest::ReadStop,
        ),
        (WorkerPoint::Deferred, WorkerReply::DeferredDone(_)) => moves(
            counted(w),
            WorkerPoint::Top,
            WorkerRequest::ReadStop,
        ),
        (WorkerPoint::StopDrain, WorkerReply::Received(req)) => moves(
            w,
            WorkerPoint::StopItem,
            WorkerRequest::ProcessItem(req),
        ),
        (WorkerPoint::StopDrain, WorkerReply::Empty) => moves(
            w,
            WorkerPoint::Exited,
            WorkerRequest::Exit,
        ),
        (WorkerPoint::StopItem, WorkerReply::ItemDone(next)) => item_done(
            w,
            next,
            WorkerPoint::StopDrain,
            WorkerRequest::TryReceive,
        ),
        (WorkerPoint::ClosedDrain, WorkerReply::Received(req)) => moves(
            w,
            WorkerPoint::ClosedItem,
            WorkerRequest::ProcessItem(req),
        ),
        (WorkerPoint::ClosedDrain, WorkerReply::Empty) => drain_on(w),
        (WorkerPoint::ClosedItem, WorkerReply::ItemDone(next)) => item_done(
            w,
            next,
            WorkerPoint::ClosedDrain,
            WorkerRequest::TryReceive,
        ),
        (WorkerPoint::DeferredDrain, WorkerReply::Stop(true)) => moves(
            w,
            WorkerPoint::Exited,
            WorkerRequest::Exit,
        ),
        (WorkerPoint::DeferredDrain, WorkerReply::Stop(false)) => run_oldest(
            w,
            WorkerPoint::DrainDeferred,
        ),
        (WorkerPoint::DrainDeferred, WorkerReply::DeferredDone(_)) => drain_on(counted(w)),
        _ => arbitrary(),
    }
}

/// The stop flag cuts the worker off with this reply: the channel is empty, or
/// second-phase requests are left that will not be run.
pub open spec fn cut_off(w: WorkerView, reply: WorkerReply) -> bool {
    ||| w.point == WorkerPoint::StopDrain && reply is Empty
    ||| w.point == WorkerPoint::DeferredDrain && reply == WorkerReply::Stop(true)
}

/// The batch of the request that was running closes with its end.
pub open spec fn closes(
    tracker: Map<Seq<char>, BatchProgress>,
    running: Running,
    outcome: DeferredOutcome,
) -> bool {
    match running.batch_id {
        Some(id) => {
            &&& tracker.dom().contains(id@)
            &&& ended(tracker[id@], outcome).done() >= ended(tracker[id@], outcome).total
        },
        None => false,
    }
}

/// What the worker issues when a second-phase request has ended: the closing event
/// of its batch, then the checkpoint that is due after every tenth request.
pub open spec fn is_issued_at_end(
    notices: Seq<WorkerNotice>,
    tracker: Map<Seq<char>, BatchProgress>,
    w: WorkerView,
    outcome: DeferredOutcome,
) -> bool {
    let running = w.running->0;
    let closing = closes(tracker, running, outcome);
    let due = (w.processed + 1) % CHECKPOINT_INTERVAL as int == 0;
    let at = if closing {
        1int
    } else {
        0int
    };
    &&& notices.len() == at + (if due {
        1int
    } else {
        0int
    })
    &&& closing ==> match notices[0] {
        WorkerNotice::BatchClosed(event) => event.reports(
            running.batch_id->0@,
            ended(tracker[running.batch_id->0@], outcome),
        ),
        _ => false,
    }
    &&& due ==> notices[at] == WorkerNotice::Checkpoint(running.episode_id)
}

/// The batches after a second-phase request has ended.
pub open spec fn tracker_at_end(
    tracker: Map<Seq<char>, BatchProgress>,
    running: Running,
    outcome: DeferredOutcome,
) -> Map<Seq<char>, BatchProgress> {
    match running.batch_id {
        Some(id) if tracker.dom().contains(id@) => if closes(tracker, running, outcome) {
            tracker.remove(id@)
        } else {
            tracker.insert(id@, ended(tracker[id@], outcome))
        },
        _ => tracker,
    }
}

/// The notices report every one of `entries` as interrupted, once and in order.
pub open spec fn interrupts_all(notices: Seq<WorkerNotice>, entries: Seq<BatchEntry>) -> bool {
    &&& notices.len() == entries.len()
    &&& forall|i: int|
        0 <= i < notices.len() ==> match #[trigger] notices[i] {
            WorkerNotice::BatchInterrupted(event) => event.reports(
                entries[i].batch_id@,
                entries[i].progress,
            ),
            _ => false,
        }
}

/// What the worker issues when the stop flag cuts it off: every open batch is
/// reported as interrupted, behind the number of second-phase requests that are given
/// up where the flag came up while they were being worked off.
pub open spec fn is_issued_at_cut_off(
    notices: Seq<WorkerNotice>,
    w: WorkerView,
    entries: Seq<BatchEntry>,
) -> bool {
    if w.point == WorkerPoint::DeferredDrain {
        &&& notices.len() > 0
        &&& notices[0] == WorkerNotice::Abandoned(w.deferred.len() as usize)
        &&& interrupts_all(notices.skip(1), entries)
    } else {
        interrupts_all(notices, entries)
    }
}

impl Worker {
    /// A second-phase request is being run exactly where its end is awaited, and the
    /// queue is not empty where its oldest request is about to be taken.
    pub open spec fn wf(self) -> bool {
        &&& self.running is Some <==> (self.point == WorkerPoint::Deferred || self.point
            == WorkerPoint::DrainDeferred)
        &&& self.point == WorkerPoint::DeferredDrain ==> self.deferred@.len() > 0
    }

    /// A worker with nothing to do yet; its first request is to read the stop flag.
    pub fn start() -> (r: Worker)
        ensures
            r.wf(),
            r.deferred@ == Seq::<DeferredRequest>::empty(),
            r.processed == 0,
            r.running is None,
            r.point == WorkerPoint::Top,
    {
        Worker { deferred: VecDeque::new(), processed: 0, running: None, point: WorkerPoint::Top }
    }

    /// Queues what the first phase led to.
    fn enqueue(&mut self, next: Option<DeferredRequest>)
        ensures
            final(self)@ == (WorkerView {
                deferred: match next {
                    Some(d) => old(self)@.deferred.push(d),
                    None => old(self)@.deferred,
                },
                ..old(self)@
            }),
    {
        if let Some(d) = next {
            self.deferred.push_back(d);
        }
    }

    /// Takes the oldest second-phase request and runs it.
    fn take_oldest(&mut self, point: WorkerPoint) -> (r: WorkerRequest)
        requires
            old(self).deferred@.len() > 0,
        ensures
            final(self)@ == run_oldest(old(self)@, point).worker,
            r == run_oldest(old(self)@, point).request,
    {
        let ghost before = self.deferred@;
        match self.deferred.pop_front() {
            Some(d) => {
                assert(self.deferred@ =~= before.drop_first());
                self.running = Some(
                    Running { batch_id: d.batch_id.clone(), episode_id: d.episode_id },
                );
                self.point = point;
                WorkerRequest::ProcessDeferred(d)
            },
            None => WorkerRequest::Exit,
        }
    }

    /// Looks at the stop flag again while second-phase requests are left, else exits.
    fn go_on_draining(&mut self) -> (r: WorkerRequest)
        ensures
            final(self)@ == drain_on(old(self)@).worker,
            r == drain_on(old(self)@).request,
    {
        if self.deferred.len() == 0 {
            self.point = WorkerPoint::Exited;
            WorkerRequest::Exit
        } else {
            self.point = WorkerPoint::DeferredDrain;
            WorkerRequest::ReadStop
        }
    }

    /// Counts the end of the second-phase request that was running.
    fn end_running(&mut self, tracker: &mut BatchTracker, outcome: DeferredOutcome) -> (r: Vec<
        WorkerNotice,
    >)
        requires
            old(self).running is Some,
            old(self).processed < u64::MAX,
            old(tracker).wf(),
        ensures
            final(tracker).wf(),
            final(self)@ == counted(old(self)@),
            final(tracker)@ == tracker_at_end(old(tracker)@, old(self).running->0, outcome),
            is_issued_at_end(r@, old(tracker)@, old(self)@, outcome),
    {
        let mut notices: Vec<WorkerNotice> = Vec::new();
        self.processed = self.processed + 1;
        if let Some(running) = self.running.take() {
            let closed = match &running.batch_id {
                Some(id) => tracker.complete(Some(id), outcome),
                None => tracker.complete(None, outcome),
            };
            if let Some(event) = closed {
                notices.push(WorkerNotice::BatchClosed(event));
            }
            if self.processed % CHECKPOINT_INTERVAL == 0 {
                notices.push(WorkerNotice::Checkpoint(running.episode_id));
            }
        }
        notices
    }

    /// Closes every open batch as interrupted, behind `notices`.
    fn interrupt_batches(tracker: &mut BatchTracker, notices: &mut Vec<WorkerNotice>)
        requires
            old(tracker).wf(),
        ensures
            final(tracker).wf(),
            final(tracker)@ == Map::<Seq<char>, BatchProgress>::empty(),
            final(notices).len() == old(notices).len() + old(tracker).entries.len(),
            forall|i: int|
                0 <= i < old(notices).len() ==> #[trigger] final(notices)@[i] == old(notices)@[i],
            interrupts_all(
                final(notices)@.skip(old(notices).len() as int),
                old(tracker).entries@,
            ),
    {
        let ghost before = notices@;
        let ghost entries = tracker.entries@;
        let mut events = tracker.interrupt();
        let ghost all = events@;
        while events.len() > 0
            invariant
                events@ == all.skip(notices.len() - before.len()),
                before.len() <= notices.len() <= before.len() + all.len(),
                all.len() == entries.len(),
                forall|i: int|
                    0 <= i < all.len() ==> (#[trigger] all[i]).reports(
                        entries[i].batch_id@,
                        entries[i].progress,
                    ),
                forall|i: int| 0 <= i < before.len() ==> #[trigger] notices@[i] == before[i],
                forall|i: int|
                    before.len() <= i < notices.len() ==> #[trigger] notices@[i]
                        == WorkerNotice::BatchInterrupted(all[i - before.len()]),
            decreases events.len(),
        {
            proof {
                let k = notices.len() - before.len();
                assert(all.skip(k).remove(0) =~= all.skip(k + 1));
            }
            let event = events.remove(0);
            notices.push(WorkerNotice::BatchInterrupted(event));
        }
    }

    /// Takes the reply to the last request: what to issue, in order, and the request
    /// that follows.
    pub fn step(&mut self, tracker: &mut BatchTracker, reply: WorkerReply) -> (r: (
        Vec<WorkerNotice>,
        WorkerRequest,
    ))
        requires
            old(self).wf(),
            old(tracker).wf(),
            old(self).point.expects(reply),
            reply is DeferredDone ==> old(self).processed < u64::MAX,
        ensures
            final(self).wf(),
            final(tracker).wf(),
            final(self)@ == worker_transition(old(self)@, reply).worker,
            r.1 == worker_transition(old(self)@, reply).request,
            match reply {
                WorkerReply::DeferredDone(outcome) => {
                    &&& final(tracker)@ == tracker_at_end(
                        old(tracker)@,
                        old(self).running->0,
                        outcome,
                    )
                    &&& is_issued_at_end(r.0@, old(tracker)@, old(self)@, outcome)
                },
                _ => if cut_off(old(self)@, reply) {
                    &&& final(tracker)@ == Map::<Seq<char>, BatchProgress>::empty()
                    &&& is_issued_at_cut_off(r.0@, old(self)@, old(tracker).entries@)
                } else {
                    &&& *final(tracker) == *old(tracker)
                    &&& r.0.len() == 0
                },
            },
    {
        let mut notices: Vec<WorkerNotice> = Vec::new();
        match reply {
            WorkerReply::Stop(stop) => {
                if let WorkerPoint::Top = self.point {
                    if stop {
                        self.point = WorkerPoint::StopDrain;
                        (notices, WorkerRequest::TryReceive)
                    } else {
                        self.point = WorkerPoint::Receiving;
                        (notices, WorkerRequest::Receive)
                    }
                } else if stop {
                    notices.push(WorkerNotice::Abandoned(self.deferred.len()));
                    Self::interrupt_batches(tracker, &mut notices);
                    assert(notices@[0] is Abandoned);
                    self.point = WorkerPoint::Exited;
                    (notices, WorkerRequest::Exit)
                } else {
                    let request = self.take_oldest(WorkerPoint::DrainDeferred);
                    (notices, request)
                }
            },
            WorkerReply::Received(req) => {
                self.point = match self.point {
                    WorkerPoint::Receiving => WorkerPoint::Item,
                    WorkerPoint::StopDrain => WorkerPoint::StopItem,
                    _ => WorkerPoint::ClosedItem,
                };
                (notices, WorkerRequest::ProcessItem(req))
            },
            WorkerReply::Idle => {
                if self.deferred.len() == 0 {
                    self.point = WorkerPoint::Top;
                    (notices, WorkerRequest::ReadStop)
                } else {
                    let request = self.take_oldest(WorkerPoint::Deferred);
                    (notices, request)
                }
            },
            WorkerReply::Disconnected => {
                self.point = WorkerPoint::ClosedDrain;
                (notices, WorkerRequest::TryReceive)
            },
            WorkerReply::Empty => {
                if let WorkerPoint::StopDrain = self.point {
                    Self::interrupt_batches(tracker, &mut notices);
                    assert(notices@.skip(0) =~= notices@);
                    self.point = WorkerPoint::Exited;
                    (notices, WorkerRequest::Exit)
                } else {
                    let request = self.go_on_draining();
                    (notices, request)
                }
            },
            WorkerReply::ItemDone(next) => {
                self.enqueue(next);
                match self.point {
                    WorkerPoint::Item => {
                        self.point = WorkerPoint::Top;
                        (notices, WorkerRequest::ReadStop)
                    },
                    WorkerPoint::StopItem => {
                        self.point = WorkerPoint::StopDrain;
                        (notices, WorkerRequest::TryReceive)
                    },
                    _ => {
                        self.point = WorkerPoint::ClosedDrain;
                        (notices, WorkerRequest::TryReceive)
                    },
                }
            },
            WorkerReply::DeferredDone(outcome) => {
                let issued = self.end_running(tracker, outcome);
                if let WorkerPoint::Deferred = self.point {
                    self.point = WorkerPoint::Top;
                    (issued, WorkerRequest::ReadStop)
                } else {
                    let request = self.go_on_draining();
                    (issued, request)
                }
            },
        }
    }
}

/// Name under which the worker records its resume point.
pub open spec fn checkpoint_op() -> Seq<char> {
    "verify_stage"@
}

/// A row of the checkpoint table.
#[derive(Debug, Clone)]
pub struct CheckpointRow {
    pub op_name: String,
    pub run_id: String,
    /// The episode that was processed last, in decimal.
    pub cursor: String,
    /// Seconds since the epoch.
    pub updated_at: i64,
}

/// Identifier of a worker run that started at the given microsecond.
pub fn run_id(started_micros: i64) -> (r: String)
    ensures
        r@ == "verify_stage_"@ + signed_decimal(started_micros as int),
{
    let mut out: String = owned("verify_stage_");
    out.append(render_i64(started_micros).as_str());
    out
}

/// The row that makes `episode_id` the resume point of a run.
pub fn checkpoint_row(run_id: &String, episode_id: i64, now: Timestamp) -> (r: CheckpointRow)
    ensures
        r.op_name@ == checkpoint_op(),
        r.op_name@ == "verify_stage"@,
        r.run_id@ == run_id@,
        r.cursor@ == signed_decimal(episode_id as int),
        r.updated_at == now.secs,
{
    CheckpointRow {
        op_name: owned("verify_stage"),
        run_id: run_id.clone(),
        cursor: render_i64(episode_id),
        updated_at: now.secs,
    }
}

/// The cursor that a worker resumes from: what the latest checkpoint row holds,
/// unless there is none or it is empty.
pub fn resume_cursor(latest: Option<String>) -> (r: Option<String>)
    ensures
        r == (match latest {
            Some(c) if c@.len() > 0 => Some(c),
            _ => None,
        }),
{
    match latest {
        Some(c) => {
            if c.as_str().is_empty() {
                None
            } else {
                Some(c)
            }
        },
        None => None,
    }
}

/// Each reply answers the request before it.
pub open spec fn worker_answered(w: WorkerView, replies: Seq<WorkerReply>) -> bool
    decreases replies.len(),
{
    replies.len() == 0 || (w.point.expects(replies[0]) && worker_answered(
        worker_transition(w, replies[0]).worker,
        replies.drop_first(),
    ))
}

/// The worker after a run of replies.
pub open spec fn worker_after(w: WorkerView, replies: Seq<WorkerReply>) -> WorkerView
    decreases replies.len(),
{
    if replies.len() == 0 {
        w
    } else {
        worker_after(worker_transition(w, replies[0]).worker, replies.drop_first())
    }
}

/// The second-phase requests that a run starts, in order.
pub open spec fn started(w: WorkerView, replies: Seq<WorkerReply>) -> Seq<DeferredRequest>
    decreases replies.len(),
{
    if replies.len() == 0 {
        seq![]
    } else {
        let t = worker_transition(w, replies[0]);
        let here = match t.request {
            WorkerRequest::ProcessDeferred(d) => seq![d],
            _ => seq![],
        };
        here + started(t.worker, replies.drop_first())
    }
}

/// The second-phase requests that first phases led to, in order.
pub open spec fn queued_by(replies: Seq<WorkerReply>) -> Seq<DeferredRequest>
    decreases replies.len(),
{
    if replies.len() == 0 {
        seq![]
    } else {
        let here = match replies[0] {
            WorkerReply::ItemDone(Some(d)) => seq![d],
            _ => seq![],
        };
        here + queued_by(replies.drop_first())
    }
}

/// The queue of a worker is not empty where its oldest request is about to be taken.
pub open spec fn worker_ready(w: WorkerView) -> bool {
    w.point == WorkerPoint::DeferredDrain ==> w.deferred.len() > 0
}

/// First-phase work has priority: a second-phase request is started only after the
/// channel was found idle, or after it was emptied with all senders gone and the stop
/// flag down.
pub proof fn law_first_phase_has_priority(w: WorkerView, reply: WorkerReply)
    requires
        w.point.expects(reply),
        worker_transition(w, reply).request is ProcessDeferred,
    ensures
        (w.point == WorkerPoint::Receiving && reply is Idle) || (w.point
            == WorkerPoint::DeferredDrain && reply == WorkerReply::Stop(false)),
{
}

/// Second-phase requests are started in the order in which they were queued, none is
/// started twice and none is dropped from the queue without being started.
pub proof fn law_oldest_first(w: WorkerView, replies: Seq<WorkerReply>)
    requires
        worker_ready(w),
        worker_answered(w, replies),
    ensures
        started(w, replies) + worker_after(w, replies).deferred == w.deferred + queued_by(replies),
    decreases replies.len(),
{
    if replies.len() > 0 {
        let t = worker_transition(w, replies[0]);
        let rest = replies.drop_first();
        law_oldest_first(t.worker, rest);
        let tail = started(t.worker, rest);
        let left = worker_after(t.worker, rest).deferred;
        if t.request is ProcessDeferred {
            assert(w.deferred =~= seq![w.deferred[0]] + t.worker.deferred);
            assert((seq![w.deferred[0]] + tail) + left =~= seq![w.deferred[0]] + (tail + left));
            assert(queued_by(replies) =~= queued_by(rest));
        } else {
            assert(started(w, replies) =~= tail);
            match replies[0] {
                WorkerReply::ItemDone(Some(d)) => {
                    assert(w.deferred.push(d) + queued_by(rest) =~= w.deferred + (seq![d]
                        + queued_by(rest)));
                },
                _ => {
                    assert(queued_by(replies) =~= queued_by(rest));
                },
            }
        }
        assert(started(w, replies) + worker_after(w, replies).deferred =~= w.deferred + queued_by(
            replies,
        ));
    } else {
        assert(started(w, replies) + w.deferred =~= w.deferred + queued_by(replies));
    }
}

/// Once the stop flag was seen at the top of the loop, no second-phase request is
/// started any more.
pub proof fn law_stop_starts_no_second_phase(w: WorkerView, replies: Seq<WorkerReply>)
    requires
        worker_answered(w, replies),
        w.point == WorkerPoint::StopDrain || w.point == WorkerPoint::StopItem || w.point
            == WorkerPoint::Exited,
    ensures
        started(w, replies) == Seq::<DeferredRequest>::empty(),
        worker_after(w, replies).processed == w.processed,
    decreases replies.len(),
{
    if replies.len() > 0 {
        law_stop_starts_no_second_phase(
            worker_transition(w, replies[0]).worker,
            replies.drop_first(),
        );
    }
}

/// The worker leaves its loop only when the stop flag cuts it off or when no
/// second-phase request is left.
pub proof fn law_exit_leaves_nothing_behind(w: WorkerView, reply: WorkerReply)
    requires
        w.point.expects(reply),
        worker_ready(w),
        worker_transition(w, reply).request is Exit,
    ensures
        cut_off(w, reply) || worker_transition(w, reply).worker.deferred.len() == 0,
{
}

/// Checkpoints that fall due while the count goes from `from` to `from + ends`.
pub open spec fn checkpoints_due(from: int, ends: nat) -> int
    decreases ends,
{
    if ends == 0 {
        0
    } else {
        checkpoints_due(from, (ends - 1) as nat) + (if (from + ends) % CHECKPOINT_INTERVAL as int
            == 0 {
            1int
        } else {
            0int
        })
    }
}

/// A checkpoint falls due once for every ten second-phase requests.
pub proof fn law_checkpoint_every_tenth(from: int, ends: nat)
    requires
        from >= 0,
    ensures
        checkpoints_due(from, ends) == (from + ends) / CHECKPOINT_INTERVAL as int - from
            / CHECKPOINT_INTERVAL as int,
    decreases ends,
{
    if ends > 0 {
        law_checkpoint_every_tenth(from, (ends - 1) as nat);
    }
}

/// Every request that the worker receives has its first phase run, whatever its state.
pub proof fn law_received_requests_are_processed(w: WorkerView, req: IngestRequest)
    requires
        w.point.expects(WorkerReply::Received(req)),
    ensures
        ({
            let t = worker_transition(w, WorkerReply::Received(req));
            &&& t.request == WorkerRequest::ProcessItem(req)
            &&& t.worker.deferred == w.deferred
            &&& t.worker.processed == w.processed
            &&& t.worker.running == w.running
            &&& t.worker.point.expects(WorkerReply::ItemDone(None))
        }),
{
}

/// What a first phase leads to is queued behind everything that was queued before it, also
/// while the channel is being emptied.
pub proof fn law_second_phase_is_queued_last(w: WorkerView, d: DeferredRequest)
    requires
        w.point.expects(WorkerReply::ItemDone(None)),
    ensures
        ({
            let some = worker_transition(w, WorkerReply::ItemDone(Some(d)));
            let none = worker_transition(w, WorkerReply::ItemDone(None));
            &&& some.worker.deferred == w.deferred.push(d)
            &&& none.worker.deferred == w.deferred
            &&& some.worker.point == none.worker.point
            &&& some.request == none.request
            &&& w.point == WorkerPoint::Item ==> some.request is ReadStop
            &&& w.point != WorkerPoint::Item ==> some.request is TryReceive
            &&& some.worker.processed == w.processed
        }),
{
}

/// A second-phase request that is started is the oldest of the queue, leaves it, and is the one
/// that is then running, with its own batch and episode.
pub proof fn law_running_request_is_the_oldest(w: WorkerView, reply: WorkerReply)
    requires
        w.point.expects(reply),
        worker_ready(w),
        worker_transition(w, reply).request is ProcessDeferred,
    ensures
        ({
            let t = worker_transition(w, reply);
            &&& w.deferred.len() > 0
            &&& t.request == WorkerRequest::ProcessDeferred(w.deferred[0])
            &&& t.worker.deferred == w.deferred.skip(1)
            &&& t.worker.running is Some
            &&& t.worker.running->0.batch_id == w.deferred[0].batch_id
            &&& t.worker.running->0.episode_id == w.deferred[0].episode_id
            &&& t.worker.point.expects(WorkerReply::DeferredDone(DeferredOutcome::Succeeded))
        }),
{
    assert(w.deferred.drop_first() =~= w.deferred.skip(1));
}

/// The worker never idles with second-phase work at hand, never leaves its loop without reason,
/// and looks at the stop flag before every new round: what it does next, reply by reply.
pub proof fn law_worker_goes_its_way(w: WorkerView, reply: WorkerReply)
    requires
        w.point.expects(reply),
        worker_ready(w),
    ensures
        ({
            let t = worker_transition(w, reply);
            match reply {
                WorkerReply::Stop(stop) => if w.point == WorkerPoint::Top {
                    (stop ==> t.request is TryReceive) && (!stop ==> t.request is Receive)
                } else {
                    (stop ==> t.request is Exit) && (!stop ==> t.request is ProcessDeferred)
                },
                WorkerReply::Idle => (w.deferred.len() > 0 ==> t.request is ProcessDeferred) && (
                w.deferred.len() == 0 ==> t.request is ReadStop),
                WorkerReply::Disconnected => t.request is TryReceive,
                WorkerReply::Empty => (t.request is Exit <==> w.point == WorkerPoint::StopDrain
                    || w.deferred.len() == 0) && (!(t.request is Exit) ==> t.request is ReadStop),
                WorkerReply::DeferredDone(_) => t.worker.processed == (w.processed + 1) as u64
                    && t.worker.running is None && t.worker.deferred == w.deferred && (
                t.request is Exit <==> w.point == WorkerPoint::DrainDeferred && w.deferred.len()
                    == 0) && (!(t.request is Exit) ==> t.request is ReadStop),
                _ => true,
            }
        }),
        !(reply is DeferredDone) ==> worker_transition(w, reply).worker.processed == w.processed,
        worker_transition(w, reply).request is Exit <==> worker_transition(w, reply).worker.point
            == WorkerPoint::Exited,
{
}

/// What is issued at the end of a second-phase request: at every tenth, and at no other, the
/// checkpoint of its episode; and the closing event of its batch exactly when the batch is
/// tracked and every one of its requests has then ended.
pub proof fn law_end_of_a_request_is_issued(
    notices: Seq<WorkerNotice>,
    tracker: Map<Seq<char>, BatchProgress>,
    w: WorkerView,
    outcome: DeferredOutcome,
)
    requires
        w.running is Some,
        is_issued_at_end(notices, tracker, w, outcome),
        forall|id: Seq<char>| #[trigger]
            tracker.dom().contains(id) ==> tracker[id].succeeded + tracker[id].skipped
                + tracker[id].failed < tracker[id].total,
    ensures
        forall|i: int|
            0 <= i < notices.len() ==> (#[trigger] notices[i] is Checkpoint || notices[i] is BatchClosed),
        (exists|i: int| 0 <= i < notices.len() && #[trigger] notices[i] is Checkpoint) <==> (
        w.processed + 1) % 10 == 0,
        forall|i: int|
            0 <= i < notices.len() && #[trigger] notices[i] is Checkpoint ==> notices[i]
                == WorkerNotice::Checkpoint(w.running->0.episode_id) && i == notices.len() - 1,
        (exists|i: int| 0 <= i < notices.len() && #[trigger] notices[i] is BatchClosed) <==> (
        w.running->0.batch_id matches Some(id) && tracker.dom().contains(id@)
            && tracker[id@].succeeded + tracker[id@].skipped + tracker[id@].failed + 1
            == tracker[id@].total),
        forall|i: int|
            0 <= i < notices.len() ==> (#[trigger] notices[i] matches WorkerNotice::BatchClosed(
                event,
            ) ==> {
                let id = w.running->0.batch_id->0@;
                &&& event.batch_id@ == id
                &&& event.skipped == tracker[id].skipped
                &&& event.succeeded == tracker[id].succeeded + (if outcome is Succeeded {
                    1int
                } else {
                    0int
                })
                &&& event.failed == tracker[id].failed + (if outcome is Failed {
                    1int
                } else {
                    0int
                })
            }),
{
    let due = (w.processed + 1) % 10 == 0;
    let closing = closes(tracker, w.running->0, outcome);
    if closing {
        assert(notices[0] is BatchClosed);
    }
    if due {
        assert(notices[notices.len() - 1] is Checkpoint);
    }
}

/// A batch whose request ended stays tracked, with that end counted and nothing else changed,
/// until its last request ends; then it is tracked no more. Every other batch is left alone.
pub proof fn law_end_counts_for_its_batch(
    tracker: Map<Seq<char>, BatchProgress>,
    running: Running,
    outcome: DeferredOutcome,
    id: Seq<char>,
)
    requires
        tracker.dom().contains(id),
        tracker[id].succeeded + tracker[id].skipped + tracker[id].failed < tracker[id].total,
    ensures
        ({
            let after = tracker_at_end(tracker, running, outcome);
            let p = tracker[id];
            if running.batch_id matches Some(own) && own@ == id {
                &&& after.dom().contains(id) <==> p.succeeded + p.skipped + p.failed + 1 < p.total
                &&& after.dom().contains(id) ==> {
                    &&& after[id].total == p.total
                    &&& after[id].skipped == p.skipped
                    &&& after[id].started_at == p.started_at
                    &&& outcome is Succeeded ==> after[id].succeeded == p.succeeded + 1
                        && after[id].failed == p.failed
                    &&& outcome is Failed ==> after[id].failed == p.failed + 1
                        && after[id].succeeded == p.succeeded
                }
            } else {
                after.dom().contains(id) && after[id] == p
            }
        }),
{
}

/// When the stop flag cuts the worker off, every open batch is reported as interrupted with the
/// counts that it reached, and the requests that are given up are counted where they were being
/// worked off.
pub proof fn law_cut_off_reports_every_batch(
    notices: Seq<WorkerNotice>,
    w: WorkerView,
    entries: Seq<BatchEntry>,
    i: int,
)
    requires
        is_issued_at_cut_off(notices, w, entries),
        0 <= i < entries.len(),
        w.deferred.len() <= usize::MAX,
    ensures
        exists|k: int|
            0 <= k < notices.len() && (#[trigger] notices[k] matches WorkerNotice::BatchInterrupted(
                event,
            ) && event.batch_id@ == entries[i].batch_id@ && event.succeeded
                == entries[i].progress.succeeded && event.skipped == entries[i].progress.skipped
                && event.failed == entries[i].progress.failed),
        w.point == WorkerPoint::DeferredDrain ==> notices.len() == entries.len() + 1 && (
        notices[0] matches WorkerNotice::Abandoned(n) && n == w.deferred.len()),
        w.point != WorkerPoint::DeferredDrain ==> notices.len() == entries.len(),
{
    if w.point == WorkerPoint::DeferredDrain {
        let rest = notices.skip(1);
        assert(rest[i] == notices[i + 1]);
    } else {
        assert(notices[i] is BatchInterrupted);
    }
}

}
