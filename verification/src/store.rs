//! The catalog store: the merged collection of one catalog and the two flags
//! that say whether a fetch is running and whether one has ever succeeded.
//!
//! The store is plain data. Whoever shares it puts it behind a lock and holds
//! the lock for one call at a time, never across a request.

use vstd::prelude::*;
use crate::catalog::{merge, upsert, well_keyed, Entries, PackageMap};
use crate::package::{PackageListing, PackageListingView};

verus! {

/// How a fetched collection enters the store.
#[derive(Clone, Copy, Debug, PartialEq, Eq, Structural)]
pub enum WriteMode {
    /// The fetched records are inserted into what the store holds; records
    /// under other identifiers stay.
    Merge,
    /// The fetched collection takes the place of what the store holds.
    Replace,
}

/// How a fetch ended.
pub enum FetchOutcome {
    /// All sources answered; these are their records, merged.
    Fetched(PackageMap),
    /// A source could not be reached or did not answer with success.
    Failed,
}

/// What a caller of the readiness gate does next.
#[derive(Clone, Copy, Debug, PartialEq, Eq, Structural)]
pub enum Readiness {
    /// A fetch has succeeded: the caller goes on.
    Ready,
    /// No fetch has succeeded yet: the caller sleeps for the given number of
    /// seconds and asks again.
    Wait(u64),
}

/// The seconds between two looks at the store while waiting for the first
/// fetch.
pub const READY_POLL_SECS: u64 = 1;

/// The store as contracts see it.
pub struct ThunderstoreView {
    /// The records of the catalog, in order.
    pub packages: Entries,
    /// A fetch is running.
    pub is_fetching: bool,
    /// A fetch has succeeded at some time.
    pub packages_fetched: bool,
}

/// The catalog store.
pub struct Thunderstore {
    packages: PackageMap,
    is_fetching: bool,
    packages_fetched: bool,
}

impl View for Thunderstore {
    type V = ThunderstoreView;

    closed spec fn view(&self) -> ThunderstoreView {
        ThunderstoreView {
            packages: self.packages@,
            is_fetching: self.is_fetching,
            packages_fetched: self.packages_fetched,
        }
    }
}

/// The store at the start of the process: no record, no fetch.
pub open spec fn new_store() -> ThunderstoreView {
    ThunderstoreView { packages: Seq::empty(), is_fetching: false, packages_fetched: false }
}

/// The records of a list inserted into a collection, each under its
/// identifier, in the order of the list.
pub open spec fn insert_all(entries: Entries, listings: Seq<PackageListingView>) -> Entries
    decreases listings.len(),
{
    if listings.len() == 0 {
        entries
    } else {
        upsert(insert_all(entries, listings.drop_last()), listings.last().uuid, listings.last())
    }
}

/// What a store holds after a fetched collection was written to it.
pub open spec fn written(entries: Entries, fetched: Entries, mode: WriteMode) -> Entries {
    match mode {
        WriteMode::Merge => merge(entries, fetched),
        WriteMode::Replace => fetched,
    }
}

/// The store after an attempt to start a fetch. The flag is up afterwards
/// whoever raised it; nothing else changes.
pub open spec fn started(state: ThunderstoreView) -> ThunderstoreView {
    ThunderstoreView { is_fetching: true, ..state }
}

/// The store after a fetch ended. The flag is down whatever the outcome. A
/// fetched collection is written and marks the store as fetched; a failure
/// leaves records and mark as they were.
pub open spec fn finished(
    state: ThunderstoreView,
    outcome: FetchOutcome,
    mode: WriteMode,
) -> ThunderstoreView {
    match outcome {
        FetchOutcome::Fetched(fetched) => ThunderstoreView {
            packages: written(state.packages, fetched@, mode),
            is_fetching: false,
            packages_fetched: true,
        },
        FetchOutcome::Failed => ThunderstoreView { is_fetching: false, ..state },
    }
}

/// What the readiness gate answers for a store.
pub open spec fn readiness_of(state: ThunderstoreView) -> Readiness {
    if state.packages_fetched {
        Readiness::Ready
    } else {
        Readiness::Wait(READY_POLL_SECS)
    }
}

impl Thunderstore {
    /// The store at the start of the process.
    pub fn new() -> (store: Thunderstore)
        ensures
            store@ == new_store(),
    {
        Thunderstore { packages: PackageMap::new(), is_fetching: false, packages_fetched: false }
    }

    /// The merged collection, as it stands.
    pub fn packages(&self) -> (packages: &PackageMap)
        ensures
            packages@ == self@.packages,
            well_keyed(self@.packages),
    {
        let _ = self.packages.len();
        &self.packages
    }

    /// Whether a fetch is running.
    pub fn is_fetching(&self) -> (flag: bool)
        ensures
            flag == self@.is_fetching,
    {
        self.is_fetching
    }

    /// Whether a fetch has succeeded at some time.
    pub fn packages_fetched(&self) -> (flag: bool)
        ensures
            flag == self@.packages_fetched,
    {
        self.packages_fetched
    }

    /// Tries to start a fetch. Only one fetch runs at a time: the attempt
    /// succeeds if none is running, and then the flag is up until
    /// `finish_fetch`. A caller that is refused must not fetch.
    pub fn try_start_fetch(&mut self) -> (granted: bool)
        ensures
            granted == !old(self)@.is_fetching,
            final(self)@ == started(old(self)@),
    {
        if self.is_fetching {
            false
        } else {
            self.is_fetching = true;
            true
        }
    }

    /// Ends the fetch that `try_start_fetch` granted, however it went.
    pub fn finish_fetch(&mut self, outcome: FetchOutcome, mode: WriteMode)
        ensures
            final(self)@ == finished(old(self)@, outcome, mode),
    {
        self.is_fetching = false;
        match outcome {
            FetchOutcome::Fetched(fetched) => {
                match mode {
                    WriteMode::Merge => {
                        self.packages.extend(fetched);
                    },
                    WriteMode::Replace => {
                        self.packages = fetched;
                    },
                }
                self.packages_fetched = true;
            },
            FetchOutcome::Failed => {},
        }
    }
}

/// Puts the records of the cache on disk, if there was one to read, into the
/// store. Flags stay as they are: a cache is no fetch.
pub fn read_and_insert_cache(state: &mut Thunderstore, cache: Option<Vec<PackageListing>>)
    ensures
        final(state)@ == (ThunderstoreView {
            packages: match cache {
                Some(mods) => insert_all(
                    old(state)@.packages,
                    mods@.map_values(|package: PackageListing| package@),
                ),
                None => old(state)@.packages,
            },
            ..old(state)@
        }),
{
    match cache {
        Some(mods) => {
            let ghost start = state@.packages;
            let ghost all = mods@.map_values(|package: PackageListing| package@);
            for package in it: mods
                invariant
                    it.seq().map_values(|package: PackageListing| package@) == all,
                    state@.packages == insert_all(start, all.subrange(0, it.index() as int)),
                    state@.is_fetching == old(state)@.is_fetching,
                    state@.packages_fetched == old(state)@.packages_fetched,
            {
                proof {
                    let i = it.index() as int;
                    assert(all.subrange(0, i + 1).drop_last() == all.subrange(0, i));
                }
                state.packages.insert(package);
            }
            assert(all.subrange(0, all.len() as int) == all);
        },
        None => {},
    }
}

/// The readiness gate, one look at a time: whether the first fetch has
/// succeeded, and if not, how long to sleep before the next look.
pub fn wait_for_fetch(state: &Thunderstore) -> (step: Readiness)
    ensures
        step == readiness_of(state@),
{
    if state.packages_fetched() {
        Readiness::Ready
    } else {
        Readiness::Wait(READY_POLL_SECS)
    }
}

} // verus!
