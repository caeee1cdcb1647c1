//! Terminal detection for named batches.
//!
//! An episode is registered with its batch before it is enqueued, so the number of
//! finished episodes can reach the number of registered ones only when every
//! registered episode is done.

use vstd::prelude::*;
use std::time::{Duration, Instant};
use crate::clock::nanos_of;
use crate::text::same_text;

verus! {

/// Per-batch terminal-detection accumulator.
pub struct BatchProgress {
    /// Episodes registered for this batch.
    pub total: usize,
    /// Episodes whose second phase completed.
    pub succeeded: usize,
    /// Episodes whose second phase was not requested.
    pub skipped: usize,
    /// Episodes whose second phase failed.
    pub failed: usize,
    /// When the batch's first episode was registered.
    pub started_at: Instant,
}

impl BatchProgress {
    /// Episodes that reached a terminal state.
    pub open spec fn done(self) -> int {
        self.succeeded + self.skipped + self.failed
    }

    /// A new entry for the first episode of a batch.
    pub fn new() -> (r: Self)
        ensures
            r.total == 1,
            r.succeeded == 0,
            r.skipped == 0,
            r.failed == 0,
    {
        BatchProgress { total: 1, succeeded: 0, skipped: 0, failed: 0, started_at: Instant::now() }
    }

    /// `true` when every registered episode has reached a terminal state.
    pub fn is_terminal(&self) -> (r: bool)
        requires
            self.done() <= usize::MAX,
        ensures
            r == (self.done() >= self.total),
    {
        self.succeeded + self.skipped + self.failed >= self.total
    }
}

impl Default for BatchProgress {
    fn default() -> (r: Self)
        ensures
            r.total == 1,
            r.succeeded == 0,
            r.skipped == 0,
            r.failed == 0,
    {
        Self::new()
    }
}

/// How the second phase of one episode ended.
#[derive(Debug, Clone, Copy, PartialEq, Eq, Structural)]
pub enum DeferredOutcome {
    Succeeded,
    Failed,
}

/// The whole milliseconds of a span, of which an event keeps the low 64 bits.
pub open spec fn millis_of(elapsed: Duration) -> int {
    (nanos_of(elapsed) as int / 1_000_000) % 0x1_0000_0000_0000_0000
}

/// The event that closes a batch.
#[derive(Debug, Clone)]
pub struct BatchPhase2Complete {
    pub batch_id: String,
    pub succeeded: usize,
    pub skipped: usize,
    pub failed: usize,
    pub duration_ms: u64,
}

impl BatchPhase2Complete {
    /// The event reports the counts of `progress` for the batch `id`, and how long the
    /// batch took by the clock.
    pub open spec fn reports(self, id: Seq<char>, progress: BatchProgress) -> bool {
        &&& self.batch_id@ == id
        &&& self.succeeded == progress.succeeded
        &&& self.skipped == progress.skipped
        &&& self.failed == progress.failed
        &&& exists|elapsed: Duration| self.duration_ms == #[trigger] millis_of(elapsed)
    }

    /// Metric label of a batch that ran to its end.
    pub open spec fn outcome_text(self) -> &'static str {
        if self.failed == 0 {
            "success"
        } else if self.succeeded == 0 {
            "all_failed"
        } else {
            "partial"
        }
    }

    /// Metric label of a batch that ran to its end.
    pub fn outcome_label(&self) -> (r: &'static str)
        ensures
            r == self.outcome_text(),
            self.failed == 0 ==> r@ == "success"@,
            self.failed > 0 && self.succeeded == 0 ==> r@ == "all_failed"@,
            self.failed > 0 && self.succeeded > 0 ==> r@ == "partial"@,
    {
        if self.failed == 0 {
            "success"
        } else if self.succeeded == 0 {
            "all_failed"
        } else {
            "partial"
        }
    }
}

/// A batch and its progress.
pub struct BatchEntry {
    pub batch_id: String,
    pub progress: BatchProgress,
}

impl BatchEntry {
    /// The event that closes the batch `elapsed` after its first registration.
    pub fn close(self, elapsed: Duration) -> (r: BatchPhase2Complete)
        ensures
            r.reports(self.batch_id@, self.progress),
            r.duration_ms == millis_of(elapsed),
            r.batch_id@ == self.batch_id@,
            r.succeeded == self.progress.succeeded,
            r.skipped == self.progress.skipped,
            r.failed == self.progress.failed,
    {
        let millis: u128 = elapsed.as_millis();
        let event = BatchPhase2Complete {
            batch_id: self.batch_id,
            succeeded: self.progress.succeeded,
            skipped: self.progress.skipped,
            failed: self.progress.failed,
            duration_ms: (millis % 0x1_0000_0000_0000_0000) as u64,
        };
        assert(event.duration_ms == millis_of(elapsed));
        event
    }
}

/// Batches with outstanding episodes.
pub struct BatchTracker {
    pub entries: Vec<BatchEntry>,
}

/// Where the batch `id` stands in `entries`.
pub open spec fn position(entries: Seq<BatchEntry>, id: Seq<char>) -> int {
    choose|i: int| 0 <= i < entries.len() && (#[trigger] entries[i]).batch_id@ == id
}

/// The progress of each batch in `entries`.
pub open spec fn progress_map(entries: Seq<BatchEntry>) -> Map<Seq<char>, BatchProgress> {
    Map::new(
        |id: Seq<char>|
            exists|i: int| 0 <= i < entries.len() && (#[trigger] entries[i]).batch_id@ == id,
        |id: Seq<char>| entries[position(entries, id)].progress,
    )
}

/// No batch has two entries.
pub open spec fn distinct_batches(entries: Seq<BatchEntry>) -> bool {
    forall|i: int, j: int|
        0 <= i < j < entries.len() ==> (#[trigger] entries[i]).batch_id@ != (
        #[trigger] entries[j]).batch_id@
}

/// A progress entry after one more episode was registered.
pub open spec fn registered(p: BatchProgress) -> BatchProgress {
    BatchProgress { total: (p.total + 1) as usize, ..p }
}

/// A progress entry after one more episode ended.
pub open spec fn ended(p: BatchProgress, outcome: DeferredOutcome) -> BatchProgress {
    match outcome {
        DeferredOutcome::Succeeded => BatchProgress { succeeded: (p.succeeded + 1) as usize, ..p },
        DeferredOutcome::Failed => BatchProgress { failed: (p.failed + 1) as usize, ..p },
    }
}

proof fn position_is(entries: Seq<BatchEntry>, i: int)
    requires
        distinct_batches(entries),
        0 <= i < entries.len(),
    ensures
        position(entries, entries[i].batch_id@) == i,
        progress_map(entries).contains_pair(entries[i].batch_id@, entries[i].progress),
{
    let id = entries[i].batch_id@;
    assert(entries[i].batch_id@ == id);
    let p = position(entries, id);
    assert(0 <= p < entries.len() && entries[p].batch_id@ == id);
}

/// Changing the progress of one entry changes the map at its batch alone.
proof fn map_updated(before: Seq<BatchEntry>, now: Seq<BatchEntry>, i: int)
    requires
        distinct_batches(before),
        0 <= i < before.len(),
        now.len() == before.len(),
        now[i].batch_id == before[i].batch_id,
        forall|j: int| 0 <= j < before.len() && j != i ==> now[j] == before[j],
    ensures
        distinct_batches(now),
        progress_map(now) == progress_map(before).insert(before[i].batch_id@, now[i].progress),
{
    assert forall|j: int| 0 <= j < now.len() implies (#[trigger] now[j]).batch_id
        == before[j].batch_id by {}
    assert(distinct_batches(now));
    let goal = progress_map(before).insert(before[i].batch_id@, now[i].progress);
    position_is(now, i);
    assert forall|id: Seq<char>| #[trigger] progress_map(now).dom().contains(id)
        == goal.dom().contains(id) by {
        if progress_map(now).dom().contains(id) {
            let j = choose|j: int| 0 <= j < now.len() && (#[trigger] now[j]).batch_id@ == id;
            assert(before[j].batch_id@ == id);
        }
        if progress_map(before).dom().contains(id) {
            let j = choose|j: int| 0 <= j < before.len() && (#[trigger] before[j]).batch_id@ == id;
            assert(now[j].batch_id@ == id);
        }
    }
    assert forall|id: Seq<char>| progress_map(now).dom().contains(id) implies #[trigger]
        progress_map(now)[id] == goal[id] by {
        let j = choose|j: int| 0 <= j < now.len() && (#[trigger] now[j]).batch_id@ == id;
        position_is(now, j);
        position_is(before, j);
    }
    assert(progress_map(now) =~= goal);
}

/// Appending an entry for a new batch adds that batch to the map.
proof fn map_pushed(before: Seq<BatchEntry>, entry: BatchEntry)
    requires
        distinct_batches(before),
        forall|j: int|
            0 <= j < before.len() ==> (#[trigger] before[j]).batch_id@ != entry.batch_id@,
    ensures
        distinct_batches(before.push(entry)),
        progress_map(before.push(entry)) == progress_map(before).insert(
            entry.batch_id@,
            entry.progress,
        ),
{
    let now = before.push(entry);
    let goal = progress_map(before).insert(entry.batch_id@, entry.progress);
    assert(distinct_batches(now));
    position_is(now, now.len() - 1);
    assert forall|id: Seq<char>| #[trigger] progress_map(now).dom().contains(id)
        == goal.dom().contains(id) by {
        if progress_map(now).dom().contains(id) {
            let j = choose|j: int| 0 <= j < now.len() && (#[trigger] now[j]).batch_id@ == id;
            if j < before.len() {
                assert(before[j].batch_id@ == id);
            }
        }
        if progress_map(before).dom().contains(id) {
            let j = choose|j: int| 0 <= j < before.len() && (#[trigger] before[j]).batch_id@ == id;
            assert(now[j].batch_id@ == id);
        }
    }
    assert forall|id: Seq<char>| progress_map(now).dom().contains(id) implies #[trigger]
        progress_map(now)[id] == goal[id] by {
        let j = choose|j: int| 0 <= j < now.len() && (#[trigger] now[j]).batch_id@ == id;
        position_is(now, j);
        if j < before.len() {
            position_is(before, j);
        }
    }
    assert(progress_map(now) =~= goal);
}

/// Removing an entry removes its batch from the map.
proof fn map_removed(before: Seq<BatchEntry>, i: int)
    requires
        distinct_batches(before),
        0 <= i < before.len(),
    ensures
        distinct_batches(before.remove(i)),
        progress_map(before.remove(i)) == progress_map(before).remove(before[i].batch_id@),
{
    let now = before.remove(i);
    let goal = progress_map(before).remove(before[i].batch_id@);
    assert(distinct_batches(now));
    assert forall|id: Seq<char>| #[trigger] progress_map(now).dom().contains(id)
        == goal.dom().contains(id) by {
        if progress_map(now).dom().contains(id) {
            let j = choose|j: int| 0 <= j < now.len() && (#[trigger] now[j]).batch_id@ == id;
            let k = if j < i {
                j
            } else {
                j + 1
            };
            assert(before[k].batch_id@ == id);
        }
        if goal.dom().contains(id) {
            let j = choose|j: int| 0 <= j < before.len() && (#[trigger] before[j]).batch_id@ == id;
            let k = if j < i {
                j
            } else {
                j - 1
            };
            assert(now[k].batch_id@ == id);
        }
    }
    assert forall|id: Seq<char>| progress_map(now).dom().contains(id) implies #[trigger]
        progress_map(now)[id] == goal[id] by {
        let j = choose|j: int| 0 <= j < now.len() && (#[trigger] now[j]).batch_id@ == id;
        position_is(now, j);
        position_is(
            before,
            if j < i {
                j
            } else {
                j + 1
            },
        );
    }
    assert(progress_map(now) =~= goal);
}

impl View for BatchTracker {
    type V = Map<Seq<char>, BatchProgress>;

    open spec fn view(&self) -> Map<Seq<char>, BatchProgress> {
        progress_map(self.entries@)
    }
}

impl BatchTracker {
    /// No batch is tracked twice, and every tracked batch has outstanding episodes.
    pub open spec fn wf(self) -> bool {
        &&& distinct_batches(self.entries@)
        &&& forall|i: int|
            0 <= i < self.entries.len() ==> (#[trigger] self.entries@[i]).progress.done()
                < self.entries@[i].progress.total
    }

    /// A tracker without batches.
    pub fn new() -> (r: BatchTracker)
        ensures
            r.wf(),
            r@ == Map::<Seq<char>, BatchProgress>::empty(),
    {
        let r = BatchTracker { entries: Vec::new() };
        assert(r@ =~= Map::<Seq<char>, BatchProgress>::empty());
        r
    }

    /// The index of a batch's entry.
    fn find(&self, batch_id: &String) -> (r: Option<usize>)
        ensures
            match r {
                Some(i) => i < self.entries.len() && self.entries@[i as int].batch_id@ == batch_id@,
                None => forall|j: int|
                    0 <= j < self.entries.len() ==> (#[trigger] self.entries@[j]).batch_id@
                        != batch_id@,
            },
    {
        let mut i: usize = 0;
        while i < self.entries.len()
            invariant
                i <= self.entries.len(),
                forall|j: int|
                    0 <= j < i ==> (#[trigger] self.entries@[j]).batch_id@ != batch_id@,
            decreases self.entries.len() - i,
        {
            if same_text(&self.entries[i].batch_id, batch_id) {
                return Some(i);
            }
            i = i + 1;
        }
        None
    }

    /// The progress of a batch, if it has outstanding episodes.
    pub fn progress(&self, batch_id: &String) -> (r: Option<&BatchProgress>)
        requires
            self.wf(),
        ensures
            match r {
                Some(p) => self@.contains_pair(batch_id@, *p),
                None => !self@.dom().contains(batch_id@),
            },
    {
        match self.find(batch_id) {
            Some(i) => {
                proof {
                    position_is(self.entries@, i as int);
                }
                Some(&self.entries[i].progress)
            },
            None => None,
        }
    }

    /// Registers one more episode with a batch, which must happen before the episode
    /// is enqueued. The first episode opens the batch.
    pub fn register(&mut self, batch_id: &String)
        requires
            old(self).wf(),
            old(self)@.dom().contains(batch_id@) ==> old(self)@[batch_id@].total < usize::MAX,
        ensures
            final(self).wf(),
            final(self)@ == old(self)@.insert(batch_id@, final(self)@[batch_id@]),
            if old(self)@.dom().contains(batch_id@) {
                final(self)@[batch_id@] == registered(old(self)@[batch_id@])
            } else {
                &&& final(self)@[batch_id@].total == 1
                &&& final(self)@[batch_id@].done() == 0
            },
            final(self)@.dom().contains(batch_id@),
            forall|other: Seq<char>|
                other != batch_id@ ==> (#[trigger] final(self)@.dom().contains(other)
                    <==> old(self)@.dom().contains(other)),
            forall|other: Seq<char>|
                other != batch_id@ && old(self)@.dom().contains(other) ==> (
                #[trigger] final(self)@[other]) == old(self)@[other],
    {
        let ghost before = self.entries@;
        match self.find(batch_id) {
            Some(i) => {
                proof {
                    position_is(before, i as int);
                }
                let total: usize = self.entries[i].progress.total + 1;
                self.entries[i].progress.total = total;
                proof {
                    map_updated(before, self.entries@, i as int);
                }
            },
            None => {
                let entry = BatchEntry {
                    batch_id: batch_id.clone(),
                    progress: BatchProgress::new(),
                };
                proof {
                    map_pushed(before, entry);
                }
                self.entries.push(entry);
            },
        }
    }

    /// Counts the end of one episode. When it was the last outstanding episode of its
    /// batch, the batch leaves the tracker and its closing event is returned. An
    /// episode without a batch, or whose batch is not tracked, changes nothing.
    pub fn complete(&mut self, batch_id: Option<&String>, outcome: DeferredOutcome) -> (r: Option<
        BatchPhase2Complete,
    >)
        requires
            old(self).wf(),
        ensures
            final(self).wf(),
            match batch_id {
                Some(id) if old(self)@.dom().contains(id@) => {
                    let p = ended(old(self)@[id@], outcome);
                    if p.done() >= p.total {
                        &&& r is Some
                        &&& r->0.reports(id@, p)
                        &&& final(self)@ == old(self)@.remove(id@)
                    } else {
                        &&& r is None
                        &&& final(self)@ == old(self)@.insert(id@, p)
                    }
                },
                _ => r is None && *final(self) == *old(self),
            },
    {
        let id = match batch_id {
            Some(id) => id,
            None => {
                return None;
            },
        };
        let ghost before = self.entries@;
        let i: usize = match self.find(id) {
            Some(i) => i,
            None => {
                return None;
            },
        };
        proof {
            position_is(before, i as int);
            assert(before[i as int].progress.done() < before[i as int].progress.total);
        }
        match outcome {
            DeferredOutcome::Succeeded => {
                let succeeded: usize = self.entries[i].progress.succeeded + 1;
                self.entries[i].progress.succeeded = succeeded;
            },
            DeferredOutcome::Failed => {
                let failed: usize = self.entries[i].progress.failed + 1;
                self.entries[i].progress.failed = failed;
            },
        }
        let ghost counted = self.entries@;
        proof {
            map_updated(before, counted, i as int);
        }
        if !self.entries[i].progress.is_terminal() {
            return None;
        }
        proof {
            map_removed(counted, i as int);
            assert(progress_map(before).insert(id@, counted[i as int].progress).remove(id@)
                =~= progress_map(before).remove(id@));
        }
        let entry = self.entries.remove(i);
        let duration = entry.progress.started_at.elapsed();
        Some(entry.close(duration))
    }

    /// Closes every batch that still has outstanding episodes, so that nobody waits
    /// for an event that cannot come any more. Every tracked batch is reported once,
    /// with the counts it reached, and the tracker is left empty.
    pub fn interrupt(&mut self) -> (r: Vec<BatchPhase2Complete>)
        requires
            old(self).wf(),
        ensures
            final(self).wf(),
            final(self)@ == Map::<Seq<char>, BatchProgress>::empty(),
            r.len() == old(self).entries.len(),
            forall|i: int|
                0 <= i < r.len() ==> (#[trigger] r@[i]).reports(
                    old(self).entries@[i].batch_id@,
                    old(self).entries@[i].progress,
                ),
    {
        let mut events: Vec<BatchPhase2Complete> = Vec::new();
        let ghost before = self.entries@;
        while self.entries.len() > 0
            invariant
                self.entries@ == before.skip(events.len() as int),
                events.len() <= before.len(),
                forall|i: int|
                    0 <= i < events.len() ==> (#[trigger] events@[i]).reports(
                        before[i].batch_id@,
                        before[i].progress,
                    ),
            decreases self.entries.len(),
        {
            proof {
                assert(before.skip(events.len() as int).remove(0) =~= before.skip(
                    events.len() + 1,
                ));
            }
            let entry = self.entries.remove(0);
            let duration = entry.progress.started_at.elapsed();
            events.push(entry.close(duration));
        }
        assert(self@ =~= Map::<Seq<char>, BatchProgress>::empty());
        events
    }
}

/// Progress after the ends of several episodes, one after the other.
pub open spec fn ended_all(p: BatchProgress, outcomes: Seq<DeferredOutcome>) -> BatchProgress
    decreases outcomes.len(),
{
    if outcomes.len() == 0 {
        p
    } else {
        ended(ended_all(p, outcomes.drop_last()), outcomes.last())
    }
}

/// How many of the outcomes are `which`.
pub open spec fn tally(outcomes: Seq<DeferredOutcome>, which: DeferredOutcome) -> nat
    decreases outcomes.len(),
{
    if outcomes.len() == 0 {
        0
    } else {
        tally(outcomes.drop_last(), which) + (if outcomes.last() == which {
            1nat
        } else {
            0nat
        })
    }
}

/// A batch closes with its last outstanding episode and not before: after some ends
/// it is terminal exactly when there were as many ends as outstanding episodes. Its
/// counts are then those of the outcomes, and registration never took part in them.
pub proof fn law_batch_closes_with_its_last_episode(
    p: BatchProgress,
    outcomes: Seq<DeferredOutcome>,
)
    requires
        p.done() < p.total,
        outcomes.len() <= p.total - p.done(),
    ensures
        ({
            let q = ended_all(p, outcomes);
            &&& q.total == p.total
            &&& q.skipped == p.skipped
            &&& q.started_at == p.started_at
            &&& q.succeeded == p.succeeded + tally(outcomes, DeferredOutcome::Succeeded)
            &&& q.failed == p.failed + tally(outcomes, DeferredOutcome::Failed)
            &&& q.done() == p.done() + outcomes.len()
            &&& (q.done() >= q.total <==> outcomes.len() == p.total - p.done())
        }),
    decreases outcomes.len(),
{
    if outcomes.len() > 0 {
        law_batch_closes_with_its_last_episode(p, outcomes.drop_last());
    }
}

/// Registering an episode before it is enqueued keeps its batch open: the batch has
/// one more outstanding episode, so no end that is already under way can close it.
pub proof fn law_registration_keeps_batch_open(p: BatchProgress, outcome: DeferredOutcome)
    requires
        p.done() < p.total < usize::MAX,
    ensures
        registered(p).total - registered(p).done() == p.total - p.done() + 1,
        ended(registered(p), outcome).done() < ended(registered(p), outcome).total,
{
}

/// Registration counts the episode and touches nothing else of the batch.
pub proof fn law_registration_counts_one(p: BatchProgress)
    requires
        p.total < usize::MAX,
    ensures
        registered(p).total == p.total + 1,
        registered(p).succeeded == p.succeeded,
        registered(p).skipped == p.skipped,
        registered(p).failed == p.failed,
        registered(p).started_at == p.started_at,
{
}

/// The closing event of a batch carries its counts, each as it is, and its label says whether
/// all, some or none of the episodes failed.
pub proof fn law_event_carries_the_counts(
    event: BatchPhase2Complete,
    id: Seq<char>,
    progress: BatchProgress,
)
    requires
        event.reports(id, progress),
    ensures
        event.batch_id@ == id,
        event.succeeded == progress.succeeded,
        event.skipped == progress.skipped,
        event.failed == progress.failed,
        event.outcome_text()@ == (if progress.failed == 0 {
            "success"@
        } else if progress.succeeded > 0 {
            "partial"@
        } else {
            "all_failed"@
        }),
{
}

/// The duration of a batch is reported in whole milliseconds: a million nanoseconds each, what
/// is left over dropped, for every span whose milliseconds fit in 64 bits.
pub proof fn law_duration_is_in_milliseconds(elapsed: Duration, millis: u64)
    requires
        millis * 1_000_000 <= nanos_of(elapsed) < (millis + 1) * 1_000_000,
    ensures
        millis_of(elapsed) == millis,
{
}

/// A batch is tracked exactly when it has an entry, with the progress of that entry.
pub proof fn law_tracker_holds_its_entries(tracker: BatchTracker, id: Seq<char>)
    requires
        tracker.wf(),
    ensures
        tracker@.dom().contains(id) <==> exists|i: int|
            0 <= i < tracker.entries.len() && (#[trigger] tracker.entries@[i]).batch_id@ == id,
        forall|i: int|
            0 <= i < tracker.entries.len() && (#[trigger] tracker.entries@[i]).batch_id@ == id
                ==> tracker@[id] == tracker.entries@[i].progress,
        tracker@.dom().contains(id) ==> tracker@[id].succeeded + tracker@[id].skipped
            + tracker@[id].failed < tracker@[id].total,
{
    assert forall|i: int|
        0 <= i < tracker.entries.len() && (#[trigger] tracker.entries@[i]).batch_id@ == id implies
        tracker@[id] == tracker.entries@[i].progress by {
        position_is(tracker.entries@, i);
    }
    if tracker@.dom().contains(id) {
        let i = choose|i: int|
            0 <= i < tracker.entries.len() && (#[trigger] tracker.entries@[i]).batch_id@ == id;
        assert(tracker.entries@[i].progress.done() < tracker.entries@[i].progress.total);
    }
}

}
