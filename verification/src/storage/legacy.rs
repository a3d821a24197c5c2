//! Migration from the older snapshot format.
//!
//! The older format knew a due time per reminder, and neither urgency nor
//! lists. A migrated reminder gets its urgency from the hours left until it
//! was due, and goes to the Actual list. The capacity of Actual is not
//! enforced here: a migrated store may hold more Actual items than the
//! capacity allows, and the commands of the store then keep their number
//! from growing.

use vstd::prelude::*;
use crate::clock::{
    hours_between, parse_rfc3339, rfc3339_instant, utc_now, whole_hours_between, Instant,
};
use crate::reminder::{opt_string_view, ListType, Reminder, ReminderView, Urgency};
use crate::storage::admission::views;
use crate::storage::merge::{ReminderStore, StoreView};

verus! {

/// A reminder in the older format.
#[derive(Debug)]
pub struct LegacyReminder {
    pub id: i64,
    pub message: String,
    pub due_time: String,
    pub created_at: String,
    pub recurrence: String,
    pub is_completed: bool,
    pub is_snoozed: bool,
    pub original_due_time: Option<String>,
    pub completed_at: Option<String>,
    pub sort_order: i64,
}

/// A store in the older format.
#[derive(Debug)]
pub struct LegacyReminderStore {
    pub pending: Vec<LegacyReminder>,
    pub completed: Vec<LegacyReminder>,
}

/// The urgency of a reminder that is due in `hours` whole hours: at most 1,
/// Now; at most 24, Today; at most 168 (seven days), Soon; else Whenever.
/// Whenever also where the hours are not known.
pub open spec fn urgency_in(hours: Option<i64>) -> Urgency {
    match hours {
        Some(h) => if h <= 1 {
            Urgency::Now
        } else if h <= 24 {
            Urgency::Today
        } else if h <= 168 {
            Urgency::Soon
        } else {
            Urgency::Whenever
        },
        None => Urgency::Whenever,
    }
}

/// The whole hours from `now` until the due time `due`, if the due time can
/// be read.
pub open spec fn hours_until(due: Seq<char>, now: Instant) -> Option<i64> {
    match rfc3339_instant(due) {
        Some(at) => whole_hours_between(now.secs, now.nanos, at.secs, at.nanos),
        None => None,
    }
}

/// The urgency of a reminder with the due time `due`, seen at `now`. A due
/// time that cannot be read gives Whenever.
pub open spec fn urgency_at(due: Seq<char>, now: Instant) -> Urgency {
    urgency_in(hours_until(due, now))
}

/// The reminder that `legacy` becomes when migrated at `now`.
pub open spec fn migrated(legacy: LegacyReminder, now: Instant) -> ReminderView {
    ReminderView {
        id: legacy.id as int,
        message: legacy.message@,
        urgency: urgency_at(legacy.due_time@, now),
        list_type: ListType::Actual,
        created_at: legacy.created_at@,
        is_completed: legacy.is_completed,
        completed_at: opt_string_view(legacy.completed_at),
        sort_order: legacy.sort_order as int,
    }
}

/// The reminders that the items of a legacy list become, in order.
pub open spec fn migrated_list(items: Seq<LegacyReminder>, now: Instant) -> Seq<ReminderView> {
    items.map_values(|legacy: LegacyReminder| migrated(legacy, now))
}

/// The store that a legacy store becomes when migrated at `now`.
pub open spec fn migrated_store(legacy: LegacyReminderStore, now: Instant) -> StoreView {
    StoreView {
        pending: migrated_list(legacy.pending@, now),
        completed: migrated_list(legacy.completed@, now),
    }
}

/// The urgency of a reminder that is due in `hours` whole hours.
pub fn urgency_for_hours(hours: Option<i64>) -> (u: Urgency)
    ensures
        u == urgency_in(hours),
{
    match hours {
        Some(h) => if h <= 1 {
            Urgency::Now
        } else if h <= 24 {
            Urgency::Today
        } else if h <= 168 {
            Urgency::Soon
        } else {
            Urgency::Whenever
        },
        None => Urgency::Whenever,
    }
}

/// Migrates one reminder, taking `now` as the current time.
pub fn migrate_legacy_reminder_at(legacy: LegacyReminder, now: Instant) -> (r: Reminder)
    ensures
        r@ == migrated(legacy, now),
{
    let hours = match parse_rfc3339(legacy.due_time.as_str()) {
        Some(due) => hours_between(now, due),
        None => None,
    };
    let urgency = urgency_for_hours(hours);
    Reminder {
        id: legacy.id,
        message: legacy.message,
        urgency,
        list_type: ListType::Actual,
        created_at: legacy.created_at,
        is_completed: legacy.is_completed,
        completed_at: legacy.completed_at,
        sort_order: legacy.sort_order,
    }
}

/// Migrates one reminder at the time the clock shows.
pub fn migrate_legacy_reminder(legacy: LegacyReminder) -> (r: Reminder)
    ensures
        exists|now: Instant| r@ == migrated(legacy, now),
{
    let now = utc_now();
    migrate_legacy_reminder_at(legacy, now)
}

/// Migrates a list of reminders, taking `now` as the current time.
pub fn migrate_list_at(items: Vec<LegacyReminder>, now: Instant) -> (r: Vec<Reminder>)
    ensures
        views(r@) == migrated_list(items@, now),
{
    let ghost goal = migrated_list(items@, now);
    let mut out: Vec<Reminder> = Vec::new();
    for legacy in it: items
        invariant
            it.seq() == items@,
            goal == migrated_list(items@, now),
            views(out@) == goal.take(it.index() as int),
    {
        let ghost before = views(out@);
        let ghost item = legacy;
        assert(item == items@[it.index() as int]);
        assert(goal[it.index() as int] == migrated(item, now));
        out.push(migrate_legacy_reminder_at(legacy, now));
        assert(views(out@) =~= before.push(migrated(item, now)));
        assert(views(out@) =~= goal.take(it.index() + 1));
    }
    assert(goal.take(items.len() as int) =~= goal);
    out
}

/// What migrating `legacy` gives: nothing unless the content reads as the
/// older format and does not read as the current one.
pub open spec fn migration_of(
    legacy: Option<LegacyReminderStore>,
    reads_as_current: bool,
    now: Instant,
) -> Option<StoreView> {
    match legacy {
        Some(store) => if reads_as_current {
            None
        } else {
            Some(migrated_store(store, now))
        },
        None => None,
    }
}

/// Migrates content of the older format, taking `now` as the current time.
///
/// `legacy` is the content read as the older format, if it reads as such;
/// `reads_as_current` says whether the same content reads as the current
/// format, in which case nothing is migrated.
pub fn try_migrate_legacy_data_at(
    legacy: Option<LegacyReminderStore>,
    reads_as_current: bool,
    now: Instant,
) -> (r: Option<ReminderStore>)
    ensures
        match r {
            Some(store) => migration_of(legacy, reads_as_current, now) == Some(store@),
            None => migration_of(legacy, reads_as_current, now) is None,
        },
{
    match legacy {
        Some(store) => {
            if reads_as_current {
                None
            } else {
                let pending = migrate_list_at(store.pending, now);
                let completed = migrate_list_at(store.completed, now);
                Some(ReminderStore { pending, completed })
            }
        },
        None => None,
    }
}

/// Migrates content of the older format at the time the clock shows.
pub fn try_migrate_legacy_data(legacy: Option<LegacyReminderStore>, reads_as_current: bool) -> (r:
    Option<ReminderStore>)
    ensures
        r is Some <==> legacy is Some && !reads_as_current,
        r is Some ==> exists|now: Instant|
            migration_of(legacy, reads_as_current, now) == Some(r->0@),
{
    let now = utc_now();
    try_migrate_legacy_data_at(legacy, reads_as_current, now)
}

} // verus!
