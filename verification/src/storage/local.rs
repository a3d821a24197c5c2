//! The local snapshot: what is loaded from it.
//!
//! Reading the file and telling which format its content has is the caller's
//! business. What is decided here is which store the content stands for, and
//! whether the file has to be rewritten.

use vstd::prelude::*;
use crate::clock::{utc_now, Instant};
use crate::storage::legacy::{
    migration_of, try_migrate_legacy_data_at, LegacyReminderStore,
};
use crate::storage::merge::{ReminderStore, StoreView};

verus! {

/// The content of a snapshot, read in both formats: as the current format,
/// if it reads as such, and as the older format, if it reads as such.
#[derive(Debug)]
pub struct Snapshot {
    pub current: Option<ReminderStore>,
    pub legacy: Option<LegacyReminderStore>,
}

/// What loading a snapshot gives.
#[derive(Debug)]
pub struct Loaded {
    /// The store that the content stands for.
    pub store: ReminderStore,
    /// Whether the store was migrated from the older format. A migrated
    /// local snapshot is backed up as it was and then rewritten at once.
    pub migrated: bool,
}

/// The store that a snapshot stands for, and whether it was migrated: the
/// content as it is if it reads as the current format; else the migrated
/// content if it reads as the older format; else the empty store. Without a
/// snapshot, the empty store.
pub open spec fn loaded_from(snapshot: Option<Snapshot>, now: Instant) -> (StoreView, bool) {
    let empty = StoreView { pending: Seq::empty(), completed: Seq::empty() };
    match snapshot {
        None => (empty, false),
        Some(content) => match content.current {
            Some(store) => (store@, false),
            None => match migration_of(content.legacy, false, now) {
                Some(store) => (store, true),
                None => (empty, false),
            },
        },
    }
}

/// Decides what a snapshot stands for, taking `now` as the current time.
/// Content that reads in neither format gives the empty store: unreadable
/// data never stops the application.
pub fn load_snapshot_at(snapshot: Option<Snapshot>, now: Instant) -> (r: Loaded)
    ensures
        (r.store@, r.migrated) == loaded_from(snapshot, now),
{
    let empty = ReminderStore { pending: Vec::new(), completed: Vec::new() };
    assert(empty@.pending =~= Seq::empty() && empty@.completed =~= Seq::empty());
    match snapshot {
        None => Loaded { store: empty, migrated: false },
        Some(content) => match content.current {
            Some(store) => Loaded { store, migrated: false },
            None => match try_migrate_legacy_data_at(content.legacy, false, now) {
                Some(store) => Loaded { store, migrated: true },
                None => Loaded { store: empty, migrated: false },
            },
        },
    }
}

/// Decides what the local snapshot stands for, at the time the clock shows.
/// `snapshot` is nothing when the file does not exist.
pub fn load_local(snapshot: Option<Snapshot>) -> (r: Loaded)
    ensures
        exists|now: Instant| (r.store@, r.migrated) == loaded_from(snapshot, now),
{
    let now = utc_now();
    load_snapshot_at(snapshot, now)
}

} // verus!
