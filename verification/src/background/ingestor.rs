//! The enqueue side of the background ingestor: which request a send becomes, and
//! the accounting around the work channel.
//!
//! An enqueue has two halves with the channel's own `try_send` between them.
//! [`IngestQueue::begin_enqueue`] counts the request, and registers its episode with
//! its batch, before the worker can see it. [`IngestQueue::finish_enqueue`] takes
//! the channel's answer.

use vstd::prelude::*;
use crate::background::batch_tracker::{registered, BatchProgress, BatchTracker};
use crate::background::{IngestRequest, IngestSendError, Timestamp};
use crate::config::ContentType;

verus! {

/// Optional settings of a send. The default leaves all of them out.
#[derive(Debug, Clone)]
pub struct SendParams {
    pub reference_time: Option<Timestamp>,
    /// The anchor that the caller declared for the document.
    pub declared_reference_time: Option<Timestamp>,
    pub group_id: Option<String>,
    pub content_type: Option<ContentType>,
}

impl Default for SendParams {
    fn default() -> (r: Self)
        ensures
            r.reference_time is None,
            r.declared_reference_time is None,
            r.group_id is None,
            r.content_type is None,
    {
        SendParams {
            reference_time: None,
            declared_reference_time: None,
            group_id: None,
            content_type: None,
        }
    }
}

/// The request of a plain send: it belongs to no batch.
pub fn send_request(text: String, params: SendParams) -> (r: IngestRequest)
    ensures
        r == (IngestRequest {
            text,
            reference_time: params.reference_time,
            declared_reference_time: params.declared_reference_time,
            group_id: params.group_id,
            content_type: params.content_type,
            batch_id: None,
        }),
{
    IngestRequest {
        text,
        reference_time: params.reference_time,
        declared_reference_time: params.declared_reference_time,
        group_id: params.group_id,
        content_type: params.content_type,
        batch_id: None,
    }
}

/// The request of a send into a named batch: everything but the batch is left out.
pub fn batched_request(text: String, batch_id: String) -> (r: IngestRequest)
    ensures
        r == (IngestRequest {
            text,
            reference_time: None,
            declared_reference_time: None,
            group_id: None,
            content_type: None,
            batch_id: Some(batch_id),
        }),
{
    IngestRequest {
        text,
        reference_time: None,
        declared_reference_time: None,
        group_id: None,
        content_type: None,
        batch_id: Some(batch_id),
    }
}

/// What the work channel answered to a `try_send`.
#[derive(Debug, Clone, Copy, PartialEq, Eq, Structural)]
pub enum ChannelReply {
    Sent,
    Full,
    Disconnected,
}

/// Something that happens to the work channel.
pub enum QueueEvent {
    /// A request was counted.
    Begun,
    /// The channel answered.
    Answered(ChannelReply),
    /// The worker took a request.
    Taken,
}

/// The count of queued requests after an event.
pub open spec fn count_after(queued: int, e: QueueEvent) -> int {
    match e {
        QueueEvent::Begun => queued + 1,
        QueueEvent::Answered(ChannelReply::Sent) => queued,
        QueueEvent::Answered(_) => queued - 1,
        QueueEvent::Taken => queued - 1,
    }
}

/// Accounting of the work channel and of the batches behind it.
pub struct IngestQueue {
    /// Requests that were counted and not yet taken by the worker.
    pub queued: usize,
    /// Capacity of the work channel.
    pub channel_capacity: usize,
    /// Batches with outstanding episodes.
    pub tracker: BatchTracker,
}

impl IngestQueue {
    /// The tracker is consistent.
    pub open spec fn wf(self) -> bool {
        self.tracker.wf()
    }

    /// Accounting of an empty channel.
    pub fn new(channel_capacity: usize) -> (r: IngestQueue)
        ensures
            r.wf(),
            r.queued == 0,
            r.channel_capacity == channel_capacity,
            r.tracker@ == Map::<Seq<char>, BatchProgress>::empty(),
    {
        IngestQueue { queued: 0, channel_capacity, tracker: BatchTracker::new() }
    }

    /// Counts a request that is about to be handed to the channel, and registers its
    /// episode with its batch.
    pub fn begin_enqueue(&mut self, req: &IngestRequest)
        requires
            old(self).wf(),
            old(self).queued < usize::MAX,
            req.batch_id matches Some(id) ==> (old(self).tracker@.dom().contains(id@) ==> old(
                self,
            ).tracker@[id@].total < usize::MAX),
        ensures
            final(self).wf(),
            final(self).queued == count_after(old(self).queued as int, QueueEvent::Begun),
            final(self).queued == old(self).queued + 1,
            final(self).channel_capacity == old(self).channel_capacity,
            match req.batch_id {
                None => final(self).tracker == old(self).tracker,
                Some(id) => {
                    &&& final(self).tracker@ == old(self).tracker@.insert(
                        id@,
                        final(self).tracker@[id@],
                    )
                    &&& if old(self).tracker@.dom().contains(id@) {
                        final(self).tracker@[id@] == registered(old(self).tracker@[id@])
                    } else {
                        final(self).tracker@[id@].total == 1 && final(self).tracker@[id@].done()
                            == 0
                    }
                },
            },
    {
        if let Some(id) = &req.batch_id {
            self.tracker.register(id);
        }
        self.queued = self.queued + 1;
    }

    /// Takes the channel's answer. A refused request is no longer counted as queued;
    /// its registration with its batch stands.
    pub fn finish_enqueue(&mut self, reply: ChannelReply) -> (r: Result<(), IngestSendError>)
        requires
            old(self).wf(),
            !(reply is Sent) ==> old(self).queued > 0,
        ensures
            final(self).wf(),
            final(self).tracker == old(self).tracker,
            final(self).channel_capacity == old(self).channel_capacity,
            final(self).queued == count_after(
                old(self).queued as int,
                QueueEvent::Answered(reply),
            ),
            reply is Sent ==> final(self).queued == old(self).queued,
            !(reply is Sent) ==> final(self).queued == old(self).queued - 1,
            r == (match reply {
                ChannelReply::Sent => Ok(()),
                ChannelReply::Full => Err(IngestSendError::Full(old(self).channel_capacity)),
                ChannelReply::Disconnected => Err(IngestSendError::Disconnected),
            }),
    {
        match reply {
            ChannelReply::Sent => Ok(()),
            ChannelReply::Full => {
                self.queued = self.queued - 1;
                Err(IngestSendError::Full(self.channel_capacity))
            },
            ChannelReply::Disconnected => {
                self.queued = self.queued - 1;
                Err(IngestSendError::Disconnected)
            },
        }
    }

    /// Counts a request that the worker took from the channel and returns how many
    /// are left.
    pub fn dequeue(&mut self) -> (r: usize)
        requires
            old(self).wf(),
            old(self).queued > 0,
        ensures
            final(self).wf(),
            final(self).queued == count_after(old(self).queued as int, QueueEvent::Taken),
            final(self).queued == old(self).queued - 1,
            final(self).channel_capacity == old(self).channel_capacity,
            final(self).tracker == old(self).tracker,
            r == final(self).queued,
    {
        self.queued = self.queued - 1;
        self.queued
    }

    /// Requests counted and not yet taken.
    pub fn queue_depth(&self) -> (r: usize)
        ensures
            r == self.queued,
    {
        self.queued
    }
}

/// The count beside what it stands for: requests counted but not yet answered, and
/// requests in the channel.
pub struct QueueState {
    pub unanswered: int,
    pub in_channel: int,
    pub queued: int,
}

/// The state after an event.
pub open spec fn queue_after(s: QueueState, e: QueueEvent) -> QueueState {
    QueueState {
        unanswered: match e {
            QueueEvent::Begun => s.unanswered + 1,
            QueueEvent::Answered(_) => s.unanswered - 1,
            QueueEvent::Taken => s.unanswered,
        },
        in_channel: match e {
            QueueEvent::Answered(ChannelReply::Sent) => s.in_channel + 1,
            QueueEvent::Taken => s.in_channel - 1,
            _ => s.in_channel,
        },
        queued: count_after(s.queued, e),
    }
}

/// Only a request that was counted is answered, and only one that the channel holds
/// is taken.
pub open spec fn queue_allows(s: QueueState, e: QueueEvent) -> bool {
    match e {
        QueueEvent::Begun => true,
        QueueEvent::Answered(_) => s.unanswered > 0,
        QueueEvent::Taken => s.in_channel > 0,
    }
}

/// Every event of the run is possible when it happens.
pub open spec fn queue_run(s: QueueState, events: Seq<QueueEvent>) -> bool
    decreases events.len(),
{
    events.len() == 0 || (queue_allows(s, events[0]) && queue_run(
        queue_after(s, events[0]),
        events.drop_first(),
    ))
}

/// The state after a run.
pub open spec fn queue_end(s: QueueState, events: Seq<QueueEvent>) -> QueueState
    decreases events.len(),
{
    if events.len() == 0 {
        s
    } else {
        queue_end(queue_after(s, events[0]), events.drop_first())
    }
}

/// Because a request is counted before the channel gets it, the count is always what
/// is unanswered plus what the channel holds. So the worker never counts below zero,
/// whatever the order of sends, answers and receipts.
pub proof fn law_count_never_negative(s: QueueState, events: Seq<QueueEvent>)
    requires
        s.unanswered >= 0,
        s.in_channel >= 0,
        s.queued == s.unanswered + s.in_channel,
        queue_run(s, events),
    ensures
        ({
            let t = queue_end(s, events);
            &&& t.unanswered >= 0
            &&& t.in_channel >= 0
            &&& t.queued == t.unanswered + t.in_channel
        }),
    decreases events.len(),
{
    if events.len() > 0 {
        law_count_never_negative(queue_after(s, events[0]), events.drop_first());
    }
}

/// The count goes up by one with a request that is about to be handed over, and down by one
/// when the worker takes it or the channel refuses it; that the channel took it changes
/// nothing.
pub proof fn law_count_follows_the_request(queued: int)
    ensures
        count_after(queued, QueueEvent::Begun) == queued + 1,
        count_after(queued, QueueEvent::Taken) == queued - 1,
        count_after(queued, QueueEvent::Answered(ChannelReply::Sent)) == queued,
        count_after(queued, QueueEvent::Answered(ChannelReply::Full)) == queued - 1,
        count_after(queued, QueueEvent::Answered(ChannelReply::Disconnected)) == queued - 1,
{
}

}
