//! The refresh scheduler: when the catalog is fetched again.
//!
//! The scheduler decides and the caller acts. The caller hands in what
//! happened, the scheduler changes the store and says what to do next: fetch,
//! sleep or stop. Requests and sleeps never happen in here, so no lock on the
//! store is ever held across one.

use vstd::prelude::*;
use crate::store::{
    finished, started, FetchOutcome, Thunderstore, ThunderstoreView, WriteMode,
};

verus! {

/// The seconds between the end of one fetch and the start of the next.
pub const FETCH_INTERVAL_SECS: u64 = 900;

/// Where the scheduler stands.
#[derive(Clone, Copy, Debug, PartialEq, Eq, Structural)]
pub enum Phase {
    /// Nothing has been asked of it yet.
    Idle,
    /// It has asked for a fetch and waits for the outcome.
    Fetching,
    /// It has asked for a sleep and waits for the next tick.
    CoolingDown,
    /// Automatic refresh was switched off: it has stopped for good.
    Stopped,
}

/// What the caller tells its user before it sleeps.
#[derive(Clone, Copy, Debug, PartialEq, Eq, Structural)]
pub enum Notice {
    /// The catalog changed: the presentation layer should look again.
    StatusChanged,
    /// The fetch failed: the error is to be shown.
    FetchFailed,
    /// Somebody else is fetching: this turn was skipped, which is worth a
    /// warning and no more.
    FetchSkipped,
}

/// What the caller does next.
#[derive(Clone, Copy, Debug, PartialEq, Eq, Structural)]
pub enum Action {
    /// Fetch all sources, then hand in `Event::FetchFinished`. The mode says
    /// how the outcome will be written.
    Fetch(WriteMode),
    /// Pass the notice on, sleep for the given number of seconds, read the
    /// preference, then hand in `Event::Tick`.
    Sleep(Notice, u64),
    /// Leave the loop.
    Stop,
    /// The event did not fit the phase: nothing changed and nothing is to be
    /// done.
    Ignore,
}

/// What happened outside.
pub enum Event {
    /// A turn of the loop begins; the flag is the user's preference "fetch
    /// mods automatically" as read just now.
    Tick(bool),
    /// The fetch that was asked for has ended.
    FetchFinished(FetchOutcome),
}

/// The scheduler of one catalog.
#[derive(Clone, Copy, Debug, PartialEq, Eq, Structural)]
pub struct Scheduler {
    /// Where it stands.
    pub phase: Phase,
    /// No fetch has succeeded yet. The first fetch happens whatever the
    /// preference says, and is merged into what the cache has brought.
    pub is_first: bool,
}

/// The scheduler at the start of the loop.
pub open spec fn new_scheduler() -> Scheduler {
    Scheduler { phase: Phase::Idle, is_first: true }
}

/// How the outcome of a fetch is written: merged on the first fetch, in place
/// of the old collection afterwards.
pub open spec fn mode_of(is_first: bool) -> WriteMode {
    if is_first {
        WriteMode::Merge
    } else {
        WriteMode::Replace
    }
}

/// One step of the scheduler: the scheduler and the store afterwards, and
/// what the caller does next.
///
/// A tick, taken while idle or cooling down: with the preference off after
/// the first fetch, the scheduler stops. With a fetch already running it
/// skips the turn and sleeps. Otherwise it raises the flag and asks for a
/// fetch.
///
/// The end of a fetch, taken while fetching: the flag goes down whatever the
/// outcome. A success is written to the store and ends the first turn; a
/// failure leaves the store as it was, and the turn stays the first. Either
/// way the scheduler sleeps.
pub open spec fn step_spec(scheduler: Scheduler, store: ThunderstoreView, event: Event) -> (
    Scheduler,
    ThunderstoreView,
    Action,
) {
    match (scheduler.phase, event) {
        (Phase::Idle, Event::Tick(automatic)) | (Phase::CoolingDown, Event::Tick(automatic)) => {
            if !automatic && !scheduler.is_first {
                (Scheduler { phase: Phase::Stopped, ..scheduler }, store, Action::Stop)
            } else if store.is_fetching {
                (
                    Scheduler { phase: Phase::CoolingDown, ..scheduler },
                    store,
                    Action::Sleep(Notice::FetchSkipped, FETCH_INTERVAL_SECS),
                )
            } else {
                (
                    Scheduler { phase: Phase::Fetching, ..scheduler },
                    started(store),
                    Action::Fetch(mode_of(scheduler.is_first)),
                )
            }
        },
        (Phase::Fetching, Event::FetchFinished(outcome)) => (
            Scheduler {
                phase: Phase::CoolingDown,
                is_first: scheduler.is_first && outcome is Failed,
            },
            finished(store, outcome, mode_of(scheduler.is_first)),
            Action::Sleep(
                if outcome is Failed {
                    Notice::FetchFailed
                } else {
                    Notice::StatusChanged
                },
                FETCH_INTERVAL_SECS,
            ),
        ),
        (Phase::Stopped, _) => (scheduler, store, Action::Stop),
        _ => (scheduler, store, Action::Ignore),
    }
}

impl Scheduler {
    /// The scheduler at the start of the loop.
    pub fn new() -> (scheduler: Scheduler)
        ensures
            scheduler == new_scheduler(),
    {
        Scheduler { phase: Phase::Idle, is_first: true }
    }

    /// Takes an event, changes the store as the event asks, and says what to
    /// do next.
    pub fn step(&mut self, store: &mut Thunderstore, event: Event) -> (action: Action)
        ensures
            (*final(self), final(store)@, action) == step_spec(*old(self), old(store)@, event),
    {
        match self.phase {
            Phase::Idle | Phase::CoolingDown => match event {
                Event::Tick(automatic) => {
                    if !automatic && !self.is_first {
                        self.phase = Phase::Stopped;
                        Action::Stop
                    } else if store.is_fetching() {
                        self.phase = Phase::CoolingDown;
                        Action::Sleep(Notice::FetchSkipped, FETCH_INTERVAL_SECS)
                    } else {
                        let granted = store.try_start_fetch();
                        self.phase = Phase::Fetching;
                        Action::Fetch(
                            if self.is_first {
                                WriteMode::Merge
                            } else {
                                WriteMode::Replace
                            },
                        )
                    }
                },
                Event::FetchFinished(_) => Action::Ignore,
            },
            Phase::Fetching => match event {
                Event::FetchFinished(outcome) => {
                    let mode = if self.is_first {
                        WriteMode::Merge
                    } else {
                        WriteMode::Replace
                    };
                    let failed = match &outcome {
                        FetchOutcome::Failed => true,
                        FetchOutcome::Fetched(_) => false,
                    };
                    store.finish_fetch(outcome, mode);
                    self.phase = Phase::CoolingDown;
                    self.is_first = self.is_first && failed;
                    Action::Sleep(
                        if failed {
                            Notice::FetchFailed
                        } else {
                            Notice::StatusChanged
                        },
                        FETCH_INTERVAL_SECS,
                    )
                },
                Event::Tick(_) => Action::Ignore,
            },
            Phase::Stopped => Action::Stop,
        }
    }
}

/// The scheduler and the store after a run of events.
pub open spec fn run_spec(scheduler: Scheduler, store: ThunderstoreView, events: Seq<Event>) -> (
    Scheduler,
    ThunderstoreView,
)
    decreases events.len(),
{
    if events.len() == 0 {
        (scheduler, store)
    } else {
        let before = run_spec(scheduler, store, events.drop_last());
        let after = step_spec(before.0, before.1, events.last());
        (after.0, after.1)
    }
}

/// Single flight, at the store. Of two attempts to start a fetch with no end
/// of a fetch between them, the second is refused; and when a fetch ends, by
/// success or by failure, the flag is down.
pub proof fn lemma_single_flight(store: ThunderstoreView, outcome: FetchOutcome, mode: WriteMode)
    ensures
        started(store).is_fetching,
        started(started(store)) == started(store),
        !finished(store, outcome, mode).is_fetching,
{
}

/// Single flight, at the scheduler. While the flag is up no tick makes the
/// scheduler ask for a fetch, and the store stays as it is. When the
/// scheduler does ask for a fetch it raises the flag, and taking the end of
/// that fetch lowers it again, whatever the outcome.
pub proof fn lemma_scheduler_single_flight(
    scheduler: Scheduler,
    store: ThunderstoreView,
    automatic: bool,
    outcome: FetchOutcome,
)
    ensures
        store.is_fetching ==> !(step_spec(scheduler, store, Event::Tick(automatic)).2 is Fetch)
            && step_spec(scheduler, store, Event::Tick(automatic)).1 == store,
        step_spec(scheduler, store, Event::Tick(automatic)).2 is Fetch ==> ({
            let asked = step_spec(scheduler, store, Event::Tick(automatic));
            let ended = step_spec(asked.0, asked.1, Event::FetchFinished(outcome));
            &&& !store.is_fetching
            &&& asked.1.is_fetching
            &&& asked.0.phase == Phase::Fetching
            &&& !ended.1.is_fetching
            &&& ended.2 is Sleep
        }),
{
}

/// One step never takes the mark of a first fetch away, and sets it only by
/// taking the successful end of a fetch.
pub proof fn lemma_step_readiness(scheduler: Scheduler, store: ThunderstoreView, event: Event)
    ensures
        step_spec(scheduler, store, event).1.packages_fetched <==> store.packages_fetched || (
        scheduler.phase == Phase::Fetching && event matches Event::FetchFinished(
            FetchOutcome::Fetched(_),
        )),
{
}

/// No event of the run is the successful end of a fetch.
pub open spec fn no_success(events: Seq<Event>) -> bool {
    forall|k: int|
        0 <= k < events.len() ==> !(#[trigger] events[k] matches Event::FetchFinished(
            FetchOutcome::Fetched(_),
        ))
}

/// Readiness. Once a store is marked as fetched it stays so whatever events
/// follow. A store that is not marked stays unmarked as long as no event is
/// the successful end of a fetch: until then whoever waits for the first
/// fetch goes on waiting.
pub proof fn lemma_readiness(scheduler: Scheduler, store: ThunderstoreView, events: Seq<Event>)
    ensures
        store.packages_fetched ==> run_spec(scheduler, store, events).1.packages_fetched,
        !store.packages_fetched && no_success(events) ==> !run_spec(
            scheduler,
            store,
            events,
        ).1.packages_fetched,
    decreases events.len(),
{
    if events.len() > 0 {
        let init = events.drop_last();
        lemma_readiness(scheduler, store, init);
        let before = run_spec(scheduler, store, init);
        lemma_step_readiness(before.0, before.1, events.last());
    }
}

} // verus!
