//! The task store: the in-memory lists, the bounded-list policy, and the
//! decisions that drive local and cloud persistence.

pub mod admission;
pub mod callback;
pub mod drive;
pub mod laws;
pub mod legacy;
pub mod listing;
pub mod local;
pub mod merge;
pub mod merge_laws;
pub mod model;
pub mod oauth;
pub mod session;
pub mod stats;
pub mod sync;

use vstd::prelude::*;
use crate::clock::{rfc3339_text, to_rfc3339, utc_now, Instant};
use crate::config::MAX_ACTUAL_TASKS;
use crate::error::AppError;
use crate::reminder::{ListType, Reminder, Urgency};
use crate::storage::admission::{
    backlog_top, count_in_list, evict_to_backlog, evicted, find_position, fits_i64,
    lemma_filter_take_step, lemma_last_max, lemma_position, lemma_take_step,
    lemma_views_representable, make_room, position, promote_if_room, promoted, remove_with_id,
    representable, set_placement, views, with_room,
};
use crate::storage::laws::{
    capacity_kept, lemma_added_keeps_capacity, lemma_completed_keeps_capacity,
    lemma_deleted_keeps_capacity,
};
use crate::storage::merge::{ReminderStore, StoreView};
use crate::storage::model::{
    added, completed, deleted, max_id, moved, next_id, other_actual, reordered,
    store_representable, uncompleted, updated, urgency_set,
};
use crate::storage::oauth::OAuthCredentials;

verus! {

/// How far a change has to be written: not at all, to the local snapshot, or
/// to the local snapshot and then to the cloud.
#[derive(Debug, Clone, Copy, PartialEq, Eq, Structural)]
pub enum Persist {
    Nothing,
    LocalOnly,
    LocalAndCloud,
}

impl Persist {
    /// The wider of two scopes.
    pub open spec fn join(self, other: Persist) -> Persist {
        match (self, other) {
            (Persist::LocalAndCloud, _) => Persist::LocalAndCloud,
            (_, Persist::LocalAndCloud) => Persist::LocalAndCloud,
            (Persist::LocalOnly, _) => Persist::LocalOnly,
            (_, Persist::LocalOnly) => Persist::LocalOnly,
            _ => Persist::Nothing,
        }
    }

    /// Computes the wider of two scopes.
    pub fn widen(self, other: Persist) -> (r: Persist)
        ensures
            r == self.join(other),
    {
        match (self, other) {
            (Persist::LocalAndCloud, _) => Persist::LocalAndCloud,
            (_, Persist::LocalAndCloud) => Persist::LocalAndCloud,
            (Persist::LocalOnly, _) => Persist::LocalOnly,
            (_, Persist::LocalOnly) => Persist::LocalOnly,
            _ => Persist::Nothing,
        }
    }
}

/// The task store with its cloud session.
///
/// `data` is the store itself. The session fields hold what the cloud
/// backend needs; `credentials` is what the durable credentials hold, and
/// `unsaved` says how far the changes made since the last save have to be
/// written.
pub struct Storage {
    pub data: ReminderStore,
    pub app_data_path: String,
    pub use_drive: bool,
    pub access_token: Option<String>,
    pub refresh_token: Option<String>,
    pub client_id: Option<String>,
    pub client_secret: Option<String>,
    pub folder_id: Option<String>,
    pub file_id: Option<String>,
    pub credentials: Option<OAuthCredentials>,
    pub unsaved: Persist,
}

/// The largest id of `p`, if `p` has any item.
pub fn largest_id(p: &Vec<Reminder>) -> (r: Option<i64>)
    ensures
        match r {
            Some(m) => max_id(views(p@)) == Some(m as int),
            None => max_id(views(p@)) is None,
        },
{
    let ghost v = views(p@);
    let mut best: Option<i64> = None;
    let mut i: usize = 0;
    while i < p.len()
        invariant
            i <= p.len(),
            v == views(p@),
            match best {
                Some(m) => max_id(v.take(i as int)) == Some(m as int),
                None => max_id(v.take(i as int)) is None,
            },
        decreases p.len() - i,
    {
        proof {
            lemma_take_step(v, i as int);
        }
        best = match best {
            Some(m) => Some(if p[i].id > m { p[i].id } else { m }),
            None => Some(p[i].id),
        };
        i += 1;
    }
    assert(v.take(p.len() as int) =~= v);
    best
}

/// The error for a change whose ids or sort orders would not fit an `i64`.
pub fn out_of_range() -> (e: AppError)
    ensures
        e is Validation,
        e.message() == "id or sort order out of range"@,
{
    AppError::validation("id or sort order out of range")
}

impl Storage {
    /// Whether `self` differs from `before` in nothing but the store and the
    /// record of unsaved changes.
    pub open spec fn same_session(&self, before: &Storage) -> bool {
        *self == (Storage { data: self.data, unsaved: self.unsaved, ..*before })
    }

    /// A store with the given contents and no cloud session.
    pub fn new(app_data_path: String, data: ReminderStore) -> (s: Self)
        ensures
            s.data == data,
            s.app_data_path == app_data_path,
            !s.use_drive,
            s.access_token is None,
            s.refresh_token is None,
            s.client_id is None,
            s.client_secret is None,
            s.folder_id is None,
            s.file_id is None,
            s.credentials is None,
            s.unsaved == Persist::Nothing,
    {
        Storage {
            data,
            app_data_path,
            use_drive: false,
            access_token: None,
            refresh_token: None,
            client_id: None,
            client_secret: None,
            folder_id: None,
            file_id: None,
            credentials: None,
            unsaved: Persist::Nothing,
        }
    }

    /// The id for the next new reminder, if an `i64` can hold it.
    pub fn next_id(&self) -> (r: Option<i64>)
        ensures
            match r {
                Some(id) => id == next_id(self.data@),
                None => !fits_i64(next_id(self.data@)),
            },
    {
        let a = largest_id(&self.data.pending);
        let b = largest_id(&self.data.completed);
        let m = match (a, b) {
            (Some(x), Some(y)) => Some(if x > y { x } else { y }),
            (Some(x), None) => Some(x),
            (None, _) => b,
        };
        match m {
            Some(m) => if m == i64::MAX {
                None
            } else {
                Some(m + 1)
            },
            None => Some(1),
        }
    }

    /// Adds `reminder` under a fresh id, at the top of its list, and returns
    /// the id. An item for Actual evicts the least prioritized Actual item to
    /// the Backlog first if Actual is at capacity.
    ///
    /// Fails, changing nothing, exactly when the new id or a new sort order
    /// would not fit an `i64`.
    pub fn add_reminder(&mut self, reminder: Reminder) -> (res: Result<i64, AppError>)
        ensures
            final(self).same_session(old(self)),
            capacity_kept(old(self).data@.pending, final(self).data@.pending),
            match res {
                Ok(id) => {
                    &&& store_representable(added(old(self).data@, reminder@))
                    &&& id == next_id(old(self).data@)
                    &&& final(self).data@ == added(old(self).data@, reminder@)
                    &&& final(self).unsaved == old(self).unsaved.join(Persist::LocalAndCloud)
                },
                Err(e) => {
                    &&& !store_representable(added(old(self).data@, reminder@))
                    &&& e is Validation
                    &&& final(self).data@ == old(self).data@
                    &&& final(self).unsaved == old(self).unsaved
                },
            },
    {
        let ghost s = self.data@;
        let ghost goal = added(s, reminder@);
        proof {
            lemma_views_representable(self.data.pending@);
            lemma_views_representable(self.data.completed@);
            lemma_added_keeps_capacity(s, reminder@);
        }
        let id = match self.next_id() {
            Some(id) => id,
            None => {
                assert(!fits_i64(goal.pending.last().id));
                return Err(out_of_range());
            },
        };
        let mut reminder = reminder;
        reminder.id = id;
        if reminder.list_type == ListType::Actual {
            let full = count_in_list(&self.data.pending, ListType::Actual) >= MAX_ACTUAL_TASKS;
            let ghost q = crate::storage::admission::with_room(s.pending, full);
            if !make_room(&mut self.data.pending, full) {
                proof {
                    let j = choose|j: int|
                        0 <= j < q.len() && !(fits_i64(
                            (#[trigger] q[j]).id,
                        ) && fits_i64(q[j].sort_order));
                    assert(goal.pending[j] == q[j]);
                }
                return Err(out_of_range());
            }
            reminder.sort_order = 0;
        } else {
            match backlog_top(&self.data.pending) {
                Some(top) => {
                    reminder.sort_order = top;
                },
                None => {
                    assert(!fits_i64(goal.pending.last().sort_order));
                    return Err(out_of_range());
                },
            }
        }
        self.data.pending.push(reminder);
        self.unsaved = self.unsaved.widen(Persist::LocalAndCloud);
        proof {
            assert(self.data@.pending =~= goal.pending);
            lemma_views_representable(self.data.pending@);
        }
        Ok(id)
    }

    /// Moves the least prioritized Actual item to the top of the Backlog.
    ///
    /// Fails, changing nothing, exactly when the new sort order would not fit
    /// an `i64`.
    pub fn bump_least_important_to_backlog(&mut self) -> (res: Result<(), AppError>)
        ensures
            final(self).same_session(old(self)),
            final(self).unsaved == old(self).unsaved,
            final(self).data@.completed == old(self).data@.completed,
            match res {
                Ok(_) => {
                    &&& representable(evicted(old(self).data@.pending))
                    &&& final(self).data@.pending == evicted(old(self).data@.pending)
                },
                Err(e) => {
                    &&& !representable(evicted(old(self).data@.pending))
                    &&& e is Validation
                    &&& final(self).data@.pending == old(self).data@.pending
                },
            },
    {
        if evict_to_backlog(&mut self.data.pending) {
            Ok(())
        } else {
            Err(out_of_range())
        }
    }

    /// Moves the top Backlog item to the bottom of Actual, if Actual has
    /// room, the Backlog is not empty, and an `i64` is left below the last
    /// Actual item.
    pub fn promote_from_backlog_if_room(&mut self)
        ensures
            final(self).same_session(old(self)),
            final(self).unsaved == old(self).unsaved,
            final(self).data@.completed == old(self).data@.completed,
            final(self).data@.pending == promoted(old(self).data@.pending),
    {
        promote_if_room(&mut self.data.pending);
    }

    /// Gives the pending item `id` a new message and urgency. Does nothing
    /// when no pending item has the id.
    pub fn update_reminder(&mut self, id: i64, message: String, urgency: Urgency)
        ensures
            final(self).same_session(old(self)),
            final(self).data@ == updated(old(self).data@, id as int, message@, urgency),
            final(self).unsaved == if position(old(self).data@.pending, id as int) is Some {
                old(self).unsaved.join(Persist::LocalAndCloud)
            } else {
                old(self).unsaved
            },
    {
        match find_position(&self.data.pending, id) {
            Some(i) => {
                self.data.pending[i].message = message;
                self.data.pending[i].urgency = urgency;
                self.unsaved = self.unsaved.widen(Persist::LocalAndCloud);
                assert(self.data@.pending =~= updated(
                    old(self).data@,
                    id as int,
                    message@,
                    urgency,
                ).pending);
            },
            None => {},
        }
    }

    /// Gives the pending item `id` a new urgency. Does nothing when no
    /// pending item has the id.
    pub fn set_urgency(&mut self, id: i64, urgency: Urgency)
        ensures
            final(self).same_session(old(self)),
            final(self).data@ == urgency_set(old(self).data@, id as int, urgency),
            final(self).unsaved == if position(old(self).data@.pending, id as int) is Some {
                old(self).unsaved.join(Persist::LocalOnly)
            } else {
                old(self).unsaved
            },
    {
        match find_position(&self.data.pending, id) {
            Some(i) => {
                self.data.pending[i].urgency = urgency;
                self.unsaved = self.unsaved.widen(Persist::LocalOnly);
                assert(self.data@.pending =~= urgency_set(
                    old(self).data@,
                    id as int,
                    urgency,
                ).pending);
            },
            None => {},
        }
    }

    /// Whether moving `id` to `to` changes the store: a pending item has the
    /// id and is in the other list.
    pub open spec fn move_applies(s: StoreView, id: int, to: ListType) -> bool {
        match position(s.pending, id) {
            Some(i) => s.pending[i].list_type != to,
            None => false,
        }
    }

    /// Moves the pending item `id` to the top of the list `to_list`. Moving
    /// into Actual evicts the least prioritized Actual item first if Actual
    /// is at capacity. Does nothing when no pending item has the id or the
    /// item is in that list already.
    ///
    /// Fails, changing nothing, exactly when a new sort order would not fit
    /// an `i64`.
    pub fn move_reminder(&mut self, id: i64, to_list: ListType) -> (res: Result<(), AppError>)
        ensures
            final(self).same_session(old(self)),
            match res {
                Ok(_) => {
                    &&& store_representable(moved(old(self).data@, id as int, to_list))
                    &&& final(self).data@ == moved(old(self).data@, id as int, to_list)
                    &&& final(self).unsaved == if Self::move_applies(
                        old(self).data@,
                        id as int,
                        to_list,
                    ) {
                        old(self).unsaved.join(Persist::LocalOnly)
                    } else {
                        old(self).unsaved
                    }
                },
                Err(e) => {
                    &&& !store_representable(moved(old(self).data@, id as int, to_list))
                    &&& e is Validation
                    &&& final(self).data@ == old(self).data@
                    &&& final(self).unsaved == old(self).unsaved
                },
            },
    {
        let ghost s = self.data@;
        let ghost goal = moved(s, id as int, to_list);
        proof {
            lemma_views_representable(self.data.pending@);
            lemma_views_representable(self.data.completed@);
            lemma_position(s.pending, id as int);
        }
        let i = match find_position(&self.data.pending, id) {
            Some(i) => i,
            None => {
                return Ok(());
            },
        };
        if self.data.pending[i].list_type == to_list {
            return Ok(());
        }
        if to_list == ListType::Actual {
            let full = count_other_actual(&self.data.pending, id) >= MAX_ACTUAL_TASKS;
            let ghost q = with_room(s.pending, full);
            proof {
                lemma_last_max(s.pending, ListType::Actual);
                assert(q[i as int] == s.pending[i as int]);
            }
            if !make_room(&mut self.data.pending, full) {
                proof {
                    let j = choose|j: int|
                        0 <= j < q.len() && !(fits_i64((#[trigger] q[j]).id) && fits_i64(
                            q[j].sort_order,
                        ));
                    assert(goal.pending[j] == q[j]);
                }
                return Err(out_of_range());
            }
            set_placement(&mut self.data.pending, i, ListType::Actual, 0);
        } else {
            match backlog_top(&self.data.pending) {
                Some(top) => {
                    set_placement(&mut self.data.pending, i, ListType::Backlog, top);
                },
                None => {
                    assert(!fits_i64(goal.pending[i as int].sort_order));
                    return Err(out_of_range());
                },
            }
        }
        self.unsaved = self.unsaved.widen(Persist::LocalOnly);
        proof {
            lemma_views_representable(self.data.pending@);
        }
        Ok(())
    }

    /// Removes every item with the id from both lists. If the first pending
    /// item with the id was an Actual item, the top Backlog item is promoted.
    pub fn delete_reminder(&mut self, id: i64)
        ensures
            final(self).same_session(old(self)),
            final(self).data@ == deleted(old(self).data@, id as int),
            final(self).unsaved == old(self).unsaved.join(Persist::LocalAndCloud),
            capacity_kept(old(self).data@.pending, final(self).data@.pending),
    {
        proof {
            lemma_deleted_keeps_capacity(self.data@, id as int);
        }
        let was_actual = match find_position(&self.data.pending, id) {
            Some(i) => self.data.pending[i].list_type == ListType::Actual,
            None => false,
        };
        remove_with_id(&mut self.data.pending, id);
        remove_with_id(&mut self.data.completed, id);
        if was_actual {
            promote_if_room(&mut self.data.pending);
        }
        self.unsaved = self.unsaved.widen(Persist::LocalAndCloud);
    }

    /// Completes the pending item `id` at the time `stamp`: the item moves to
    /// the completed list, and if it was an Actual item the top Backlog item
    /// is promoted. Does nothing when no pending item has the id.
    pub fn complete_reminder_at(&mut self, id: i64, stamp: String)
        ensures
            final(self).same_session(old(self)),
            final(self).data@ == completed(old(self).data@, id as int, stamp@),
            capacity_kept(old(self).data@.pending, final(self).data@.pending),
            final(self).unsaved == if position(old(self).data@.pending, id as int) is Some {
                old(self).unsaved.join(Persist::LocalAndCloud)
            } else {
                old(self).unsaved
            },
    {
        let ghost s = self.data@;
        proof {
            lemma_completed_keeps_capacity(s, id as int, stamp@);
        }
        match find_position(&self.data.pending, id) {
            Some(pos) => {
                let was_actual = self.data.pending[pos].list_type == ListType::Actual;
                let mut reminder = self.data.pending.remove(pos);
                assert(views(self.data.pending@) =~= s.pending.remove(pos as int));
                reminder.is_completed = true;
                reminder.completed_at = Some(stamp);
                self.data.completed.push(reminder);
                if was_actual {
                    promote_if_room(&mut self.data.pending);
                }
                self.unsaved = self.unsaved.widen(Persist::LocalAndCloud);
                assert(self.data@.completed =~= completed(s, id as int, stamp@).completed);
            },
            None => {},
        }
    }

    /// Completes the pending item `id` at the time the clock shows.
    pub fn complete_reminder(&mut self, id: i64)
        ensures
            final(self).same_session(old(self)),
            capacity_kept(old(self).data@.pending, final(self).data@.pending),
            exists|now: Instant|
                final(self).data@ == completed(
                    old(self).data@,
                    id as int,
                    #[trigger] rfc3339_text(now.secs, now.nanos),
                ),
            final(self).unsaved == if position(old(self).data@.pending, id as int) is Some {
                old(self).unsaved.join(Persist::LocalAndCloud)
            } else {
                old(self).unsaved
            },
    {
        let now = utc_now();
        self.complete_reminder_at(id, to_rfc3339(now));
    }

    /// Makes the completed item `id` pending again: at the top of Actual if
    /// Actual has room, else at the top of the Backlog. Does nothing when no
    /// completed item has the id.
    ///
    /// Fails, changing nothing, exactly when a new sort order would not fit
    /// an `i64`.
    pub fn uncomplete_reminder(&mut self, id: i64) -> (res: Result<(), AppError>)
        ensures
            final(self).same_session(old(self)),
            match res {
                Ok(_) => {
                    &&& store_representable(uncompleted(old(self).data@, id as int))
                    &&& final(self).data@ == uncompleted(old(self).data@, id as int)
                    &&& final(self).unsaved == if position(
                        old(self).data@.completed,
                        id as int,
                    ) is Some {
                        old(self).unsaved.join(Persist::LocalAndCloud)
                    } else {
                        old(self).unsaved
                    }
                },
                Err(e) => {
                    &&& !store_representable(uncompleted(old(self).data@, id as int))
                    &&& e is Validation
                    &&& final(self).data@ == old(self).data@
                    &&& final(self).unsaved == old(self).unsaved
                },
            },
    {
        let ghost s = self.data@;
        let ghost goal = uncompleted(s, id as int);
        proof {
            lemma_views_representable(self.data.pending@);
            lemma_views_representable(self.data.completed@);
            lemma_position(s.completed, id as int);
        }
        let pos = match find_position(&self.data.completed, id) {
            Some(pos) => pos,
            None => {
                return Ok(());
            },
        };
        let to_actual = count_in_list(&self.data.pending, ListType::Actual) < MAX_ACTUAL_TASKS;
        let order = if to_actual {
            let ghost q = with_room(s.pending, false);
            if !make_room(&mut self.data.pending, false) {
                proof {
                    let j = choose|j: int|
                        0 <= j < q.len() && !(fits_i64((#[trigger] q[j]).id) && fits_i64(
                            q[j].sort_order,
                        ));
                    assert(goal.pending[j] == q[j]);
                }
                return Err(out_of_range());
            }
            0
        } else {
            match backlog_top(&self.data.pending) {
                Some(top) => top,
                None => {
                    assert(!fits_i64(goal.pending.last().sort_order));
                    return Err(out_of_range());
                },
            }
        };
        let mut reminder = self.data.completed.remove(pos);
        assert(views(self.data.completed@) =~= s.completed.remove(pos as int));
        reminder.is_completed = false;
        reminder.completed_at = None;
        reminder.list_type = if to_actual {
            ListType::Actual
        } else {
            ListType::Backlog
        };
        reminder.sort_order = order;
        self.data.pending.push(reminder);
        self.unsaved = self.unsaved.widen(Persist::LocalAndCloud);
        proof {
            assert(self.data@.pending =~= goal.pending);
            lemma_views_representable(self.data.pending@);
            lemma_views_representable(self.data.completed@);
        }
        Ok(())
    }

    /// Gives each listed id its place in `ordered_ids` as sort order, on the
    /// first pending item that has the id. Ids that no pending item has are
    /// passed over; pending items that are not listed keep their sort order.
    pub fn reorder_reminders(&mut self, ordered_ids: Vec<i64>)
        requires
            ordered_ids.len() <= i64::MAX,
        ensures
            final(self).same_session(old(self)),
            final(self).data@.completed == old(self).data@.completed,
            final(self).data@.pending == reordered(
                old(self).data@.pending,
                ordered_ids@.map_values(|x: i64| x as int),
            ),
            final(self).unsaved == old(self).unsaved.join(Persist::LocalOnly),
    {
        let ghost v = self.data@.pending;
        let ghost ids = ordered_ids@.map_values(|x: i64| x as int);
        let mut k: usize = 0;
        while k < ordered_ids.len()
            invariant
                k <= ordered_ids.len(),
                ordered_ids.len() <= i64::MAX,
                ids == ordered_ids@.map_values(|x: i64| x as int),
                views(self.data.pending@) == reordered(v, ids.take(k as int)),
                self.data.completed == old(self).data.completed,
                self.same_session(old(self)),
                self.unsaved == old(self).unsaved,
            decreases ordered_ids.len() - k,
        {
            proof {
                lemma_take_step(ids, k as int);
            }
            match find_position(&self.data.pending, ordered_ids[k]) {
                Some(i) => {
                    let list = self.data.pending[i].list_type;
                    set_placement(&mut self.data.pending, i, list, k as i64);
                    assert(views(self.data.pending@) =~= reordered(v, ids.take(k as int + 1)));
                },
                None => {},
            }
            k += 1;
        }
        assert(ids.take(ordered_ids.len() as int) =~= ids);
        self.unsaved = self.unsaved.widen(Persist::LocalOnly);
    }
}

/// Counts the Actual items of `p` whose id is not `id`.
pub fn count_other_actual(p: &Vec<Reminder>, id: i64) -> (n: usize)
    ensures
        n == views(p@).filter(other_actual(id as int)).len(),
{
    let ghost v = views(p@);
    let mut n: usize = 0;
    let mut i: usize = 0;
    proof {
        reveal(Seq::filter);
    }
    while i < p.len()
        invariant
            i <= p.len(),
            v == views(p@),
            n <= i,
            n == v.take(i as int).filter(other_actual(id as int)).len(),
        decreases p.len() - i,
    {
        proof {
            lemma_filter_take_step(v, other_actual(id as int), i as int);
        }
        if p[i].list_type == ListType::Actual && p[i].id != id {
            n += 1;
        }
        i += 1;
    }
    assert(v.take(p.len() as int) =~= v);
    n
}

} // verus!
