//! The synchronisation loop: it polls the list of collections that storage
//! owns and publishes it to the view only when it has changed.
//!
//! The loop itself waits on storage and on a timer, which is the business of
//! whoever runs it. What is decided here is what each event does to the
//! state and what the runner has to do next.

use crate::collection::{same_snapshot, snapshot_view, Collection, CollectionView};
use vstd::prelude::*;

verus! {

/// The time between two polls unless another is configured, in milliseconds.
pub const DEFAULT_INTERVAL_MS: u64 = 500;

/// Where the loop stands.
#[derive(Clone, Copy, Debug, PartialEq, Eq, Structural)]
pub enum SyncPhase {
    /// Waiting for the next poll.
    Idle,
    /// Waiting for storage to answer.
    Polling,
}

/// What the runner of the loop does next.
#[derive(Clone, Copy, Debug, PartialEq, Eq, Structural)]
pub enum SyncAction {
    /// Read the whole list of collections from storage.
    Read,
    /// Tell the view that the published list has changed, then wait this
    /// many milliseconds.
    PublishThenSleep(u64),
    /// Wait this many milliseconds; the view is told nothing.
    Sleep(u64),
}

/// What happened since the last step.
#[derive(Debug)]
pub enum SyncEvent {
    /// The wait is over, or the loop has just started.
    Wake,
    /// Storage answered with its whole list.
    Snapshot(Vec<Collection>),
    /// Storage could not be read.
    ReadFailed,
}

/// An event as a mathematical value.
pub enum EventView {
    Wake,
    Snapshot(Seq<CollectionView>),
    ReadFailed,
}

impl View for SyncEvent {
    type V = EventView;

    open spec fn view(&self) -> EventView {
        match self {
            SyncEvent::Wake => EventView::Wake,
            SyncEvent::Snapshot(list) => EventView::Snapshot(snapshot_view(list@)),
            SyncEvent::ReadFailed => EventView::ReadFailed,
        }
    }
}

/// The state of the loop as a mathematical value.
pub struct SyncView {
    /// The time between two polls, in milliseconds.
    pub interval_ms: u64,
    /// Where the loop stands.
    pub phase: SyncPhase,
    /// The list that the view observes.
    pub published: Seq<CollectionView>,
    /// The list that the last answered poll returned, if a poll was answered.
    pub last_observed: Option<Seq<CollectionView>>,
}

impl SyncView {
    /// The state at start: the list that the scan of storage found, or no
    /// collection where the scan failed, and no poll answered yet.
    pub open spec fn startup(scan: Option<Seq<CollectionView>>, interval_ms: u64) -> SyncView {
        SyncView {
            interval_ms,
            phase: SyncPhase::Idle,
            published: match scan {
                Some(list) => list,
                None => Seq::empty(),
            },
            last_observed: None,
        }
    }

    /// What the loop has observed last is what it has published.
    pub open spec fn wf(self) -> bool {
        self.last_observed matches Some(list) ==> list == self.published
    }

    /// Whether a list from storage has to be published: when no poll was
    /// answered before, or the last answer was another list.
    pub open spec fn publishes(self, snapshot: Seq<CollectionView>) -> bool {
        self.last_observed != Some(snapshot)
    }

    /// The state after an event.
    pub open spec fn step(self, event: EventView) -> SyncView {
        match event {
            EventView::Wake => SyncView { phase: SyncPhase::Polling, ..self },
            EventView::Snapshot(snapshot) => if self.publishes(snapshot) {
                SyncView {
                    phase: SyncPhase::Idle,
                    published: snapshot,
                    last_observed: Some(snapshot),
                    ..self
                }
            } else {
                SyncView { phase: SyncPhase::Idle, ..self }
            },
            EventView::ReadFailed => SyncView { phase: SyncPhase::Idle, ..self },
        }
    }

    /// What the runner does after an event.
    pub open spec fn action(self, event: EventView) -> SyncAction {
        match event {
            EventView::Wake => SyncAction::Read,
            EventView::Snapshot(snapshot) => if self.publishes(snapshot) {
                SyncAction::PublishThenSleep(self.interval_ms)
            } else {
                SyncAction::Sleep(self.interval_ms)
            },
            EventView::ReadFailed => SyncAction::Sleep(self.interval_ms),
        }
    }
}

/// The start state is well formed.
pub proof fn lemma_startup_wf(scan: Option<Seq<CollectionView>>, interval_ms: u64)
    ensures
        SyncView::startup(scan, interval_ms).wf(),
        SyncView::startup(scan, interval_ms).last_observed is None,
{
}

/// Every event keeps a well-formed state well formed, and none changes the
/// time between two polls.
pub proof fn lemma_step_wf(state: SyncView, event: EventView)
    requires
        state.wf(),
    ensures
        state.step(event).wf(),
        state.step(event).interval_ms == state.interval_ms,
{
}

/// The state after a sequence of events.
pub open spec fn run(state: SyncView, events: Seq<EventView>) -> SyncView
    decreases events.len(),
{
    if events.len() == 0 {
        state
    } else {
        run(state, events.drop_last()).step(events.last())
    }
}

/// Events other than an answer from storage change nothing but the phase.
pub proof fn lemma_run_without_snapshot(state: SyncView, events: Seq<EventView>)
    requires
        forall|i: int| 0 <= i < events.len() ==> !(#[trigger] events[i] is Snapshot),
    ensures
        run(state, events).published == state.published,
        run(state, events).last_observed == state.last_observed,
        run(state, events).interval_ms == state.interval_ms,
    decreases events.len(),
{
    if events.len() > 0 {
        let head = events.drop_last();
        assert forall|i: int| 0 <= i < head.len() implies !(#[trigger] head[i] is Snapshot) by {
            assert(head[i] == events[i]);
        }
        lemma_run_without_snapshot(state, head);
        assert(!(events[events.len() - 1] is Snapshot));
    }
}

/// When a poll returns the list that the poll before it returned, nothing
/// is published for it: the runner only sleeps, and the published list
/// stays the one it was. What lies between the two answers, waking up or a
/// failed read, makes no difference.
pub proof fn lemma_equal_polls_publish_once(
    state: SyncView,
    first: Seq<CollectionView>,
    second: Seq<CollectionView>,
    between: Seq<EventView>,
)
    requires
        first == second,
        forall|i: int| 0 <= i < between.len() ==> !(#[trigger] between[i] is Snapshot),
    ensures
        ({
            let after_first = state.step(EventView::Snapshot(first));
            let before_second = run(after_first, between);
            &&& before_second.action(EventView::Snapshot(second)) == SyncAction::Sleep(
                state.interval_ms,
            )
            &&& before_second.step(EventView::Snapshot(second)).published == after_first.published
            &&& before_second.step(EventView::Snapshot(second)).last_observed
                == after_first.last_observed
        }),
{
    lemma_run_without_snapshot(state.step(EventView::Snapshot(first)), between);
}

/// A poll that returns another list than the one last observed, or the
/// first poll that is answered, is published, and the published list is
/// then exactly the list that the poll returned.
pub proof fn lemma_changed_poll_publishes(state: SyncView, snapshot: Seq<CollectionView>)
    requires
        state.last_observed != Some(snapshot),
    ensures
        state.action(EventView::Snapshot(snapshot)) == SyncAction::PublishThenSleep(
            state.interval_ms,
        ),
        state.step(EventView::Snapshot(snapshot)).published == snapshot,
        state.step(EventView::Snapshot(snapshot)).last_observed == Some(snapshot),
{
}

/// In a well-formed state, a poll that returns a list other than the
/// published one is published, and the published list is then exactly the
/// list that the poll returned.
pub proof fn lemma_differing_poll_publishes(state: SyncView, snapshot: Seq<CollectionView>)
    requires
        state.wf(),
        snapshot != state.published,
    ensures
        state.action(EventView::Snapshot(snapshot)) == SyncAction::PublishThenSleep(
            state.interval_ms,
        ),
        state.step(EventView::Snapshot(snapshot)).published == snapshot,
{
}

/// The list that the view observes at start: what the scan of storage
/// found, or no collection where the scan failed.
pub fn startup_snapshot(scan: Option<Vec<Collection>>) -> (list: Vec<Collection>)
    ensures
        snapshot_view(list@) == (match scan {
            Some(found) => snapshot_view(found@),
            None => Seq::empty(),
        }),
{
    match scan {
        Some(found) => found,
        None => {
            let list: Vec<Collection> = Vec::new();
            assert(snapshot_view(list@) =~= Seq::empty());
            list
        },
    }
}

/// The synchronisation loop together with the list that it publishes.
#[derive(Debug)]
pub struct CollectionSyncLoop {
    interval_ms: u64,
    phase: SyncPhase,
    published: Vec<Collection>,
    observed: bool,
}

impl View for CollectionSyncLoop {
    type V = SyncView;

    closed spec fn view(&self) -> SyncView {
        SyncView {
            interval_ms: self.interval_ms,
            phase: self.phase,
            published: snapshot_view(self.published@),
            last_observed: if self.observed {
                Some(snapshot_view(self.published@))
            } else {
                None
            },
        }
    }
}

impl CollectionSyncLoop {
    /// The loop at start, seeded with the result of the scan of storage.
    pub fn new(scan: Option<Vec<Collection>>, interval_ms: u64) -> (state: CollectionSyncLoop)
        ensures
            state@ == SyncView::startup(
                match scan {
                    Some(found) => Some(snapshot_view(found@)),
                    None => None,
                },
                interval_ms,
            ),
            state@.wf(),
    {
        CollectionSyncLoop {
            interval_ms,
            phase: SyncPhase::Idle,
            published: startup_snapshot(scan),
            observed: false,
        }
    }

    /// The time between two polls, in milliseconds.
    pub fn interval_ms(&self) -> (ms: u64)
        ensures
            ms == self@.interval_ms,
    {
        self.interval_ms
    }

    /// Where the loop stands.
    pub fn phase(&self) -> (phase: SyncPhase)
        ensures
            phase == self@.phase,
    {
        self.phase
    }

    /// The list that the view observes.
    pub fn collections(&self) -> (list: &Vec<Collection>)
        ensures
            snapshot_view(list@) == self@.published,
            self@.wf(),
    {
        &self.published
    }

    /// Whether a poll has been answered since the start.
    pub fn has_observed(&self) -> (observed: bool)
        ensures
            observed == self@.last_observed is Some,
    {
        self.observed
    }

    /// Takes one event and says what the runner does next. An answer from
    /// storage is published only if it differs from the answer before it,
    /// or if it is the first; a failed read changes nothing and is tried
    /// again after the usual wait.
    pub fn step(&mut self, event: SyncEvent) -> (action: SyncAction)
        ensures
            final(self)@ == old(self)@.step(event@),
            action == old(self)@.action(event@),
            final(self)@.wf(),
    {
        match event {
            SyncEvent::Wake => {
                self.phase = SyncPhase::Polling;
                SyncAction::Read
            },
            SyncEvent::Snapshot(snapshot) => {
                self.phase = SyncPhase::Idle;
                if self.observed && same_snapshot(&self.published, &snapshot) {
                    SyncAction::Sleep(self.interval_ms)
                } else {
                    self.published = snapshot;
                    self.observed = true;
                    SyncAction::PublishThenSleep(self.interval_ms)
                }
            },
            SyncEvent::ReadFailed => {
                self.phase = SyncPhase::Idle;
                SyncAction::Sleep(self.interval_ms)
            },
        }
    }
}

} // verus!
