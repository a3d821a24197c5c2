//! What each command of the task store does, as a function on store values.
//!
//! These functions are the reference for the executable commands of
//! [`Storage`](crate::storage::Storage): each command is proved to compute
//! exactly the store that its function names here.

use vstd::prelude::*;
use crate::config::MAX_ACTUAL_TASKS;
use crate::reminder::{ListType, ReminderView, Urgency};
use crate::storage::admission::{
    count_list, not_id, placed, position, promoted, representable, top_of_backlog, with_room,
};
use crate::storage::merge::StoreView;

verus! {

/// Whether every id and sort order of the store can be stored in an `i64`.
pub open spec fn store_representable(s: StoreView) -> bool {
    representable(s.pending) && representable(s.completed)
}

/// The largest id of `p`, if `p` has any item.
pub open spec fn max_id(p: Seq<ReminderView>) -> Option<int>
    decreases p.len(),
{
    if p.len() == 0 {
        None
    } else {
        match max_id(p.drop_last()) {
            Some(m) => Some(if p.last().id > m { p.last().id } else { m }),
            None => Some(p.last().id),
        }
    }
}

/// The larger of two optional integers.
pub open spec fn larger(a: Option<int>, b: Option<int>) -> Option<int> {
    match (a, b) {
        (Some(x), Some(y)) => Some(if x > y { x } else { y }),
        (Some(x), None) => Some(x),
        (None, _) => b,
    }
}

/// The id that the next new reminder gets: one more than the largest id in
/// the store, pending or completed; 1 in an empty store.
pub open spec fn next_id(s: StoreView) -> int {
    match larger(max_id(s.pending), max_id(s.completed)) {
        Some(m) => m + 1,
        None => 1,
    }
}

/// The store after `r` has been added. The new item gets a fresh id and the
/// highest priority of its list; an item for Actual makes room first.
pub open spec fn added(s: StoreView, r: ReminderView) -> StoreView {
    let id = next_id(s);
    if r.list_type == ListType::Actual {
        let full = count_list(s.pending, ListType::Actual) >= MAX_ACTUAL_TASKS;
        StoreView {
            pending: with_room(s.pending, full).push(ReminderView { id, sort_order: 0, ..r }),
            completed: s.completed,
        }
    } else {
        StoreView {
            pending: s.pending.push(
                ReminderView { id, sort_order: top_of_backlog(s.pending), ..r },
            ),
            completed: s.completed,
        }
    }
}

/// The store after the pending item `id` got a new message and urgency.
/// Unchanged when no pending item has the id.
pub open spec fn updated(s: StoreView, id: int, message: Seq<char>, urgency: Urgency) -> StoreView {
    match position(s.pending, id) {
        Some(i) => StoreView {
            pending: s.pending.update(i, ReminderView { message, urgency, ..s.pending[i] }),
            completed: s.completed,
        },
        None => s,
    }
}

/// The store after the pending item `id` got a new urgency. Unchanged when no
/// pending item has the id.
pub open spec fn urgency_set(s: StoreView, id: int, urgency: Urgency) -> StoreView {
    match position(s.pending, id) {
        Some(i) => StoreView {
            pending: s.pending.update(i, ReminderView { urgency, ..s.pending[i] }),
            completed: s.completed,
        },
        None => s,
    }
}

/// The predicate "an Actual item whose id is not `id`".
pub open spec fn other_actual(id: int) -> spec_fn(ReminderView) -> bool {
    |r: ReminderView| r.list_type == ListType::Actual && r.id != id
}

/// The store after the pending item `id` moved to the list `to`, at the top
/// of that list. Moving into Actual makes room first. Unchanged when no
/// pending item has the id or the item is in that list already.
pub open spec fn moved(s: StoreView, id: int, to: ListType) -> StoreView {
    match position(s.pending, id) {
        None => s,
        Some(i) => if s.pending[i].list_type == to {
            s
        } else if to == ListType::Actual {
            let full = s.pending.filter(other_actual(id)).len() >= MAX_ACTUAL_TASKS;
            let q = with_room(s.pending, full);
            StoreView { pending: q.update(i, placed(q[i], ListType::Actual, 0)), completed: s.completed }
        } else {
            StoreView {
                pending: s.pending.update(
                    i,
                    placed(s.pending[i], ListType::Backlog, top_of_backlog(s.pending)),
                ),
                completed: s.completed,
            }
        },
    }
}

/// Whether the first pending item with the id is an Actual item.
pub open spec fn is_actual(p: Seq<ReminderView>, id: int) -> bool {
    match position(p, id) {
        Some(i) => p[i].list_type == ListType::Actual,
        None => false,
    }
}

/// The store after every item with the id has been removed from both lists.
/// Removing an Actual item promotes from the Backlog.
pub open spec fn deleted(s: StoreView, id: int) -> StoreView {
    let rest = s.pending.filter(not_id(id));
    StoreView {
        pending: if is_actual(s.pending, id) { promoted(rest) } else { rest },
        completed: s.completed.filter(not_id(id)),
    }
}

/// The store after the pending item `id` has been completed at the time
/// `stamp`. Completing an Actual item promotes from the Backlog. Unchanged
/// when no pending item has the id.
pub open spec fn completed(s: StoreView, id: int, stamp: Seq<char>) -> StoreView {
    match position(s.pending, id) {
        None => s,
        Some(i) => {
            let r = s.pending[i];
            let rest = s.pending.remove(i);
            StoreView {
                pending: if r.list_type == ListType::Actual { promoted(rest) } else { rest },
                completed: s.completed.push(
                    ReminderView { is_completed: true, completed_at: Some(stamp), ..r },
                ),
            }
        },
    }
}

/// The store after the completed item `id` became pending again: at the top
/// of Actual if Actual has room, else at the top of the Backlog. Unchanged
/// when no completed item has the id.
pub open spec fn uncompleted(s: StoreView, id: int) -> StoreView {
    match position(s.completed, id) {
        None => s,
        Some(i) => {
            let r = ReminderView { is_completed: false, completed_at: None, ..s.completed[i] };
            let rest = s.completed.remove(i);
            if count_list(s.pending, ListType::Actual) < MAX_ACTUAL_TASKS {
                StoreView {
                    pending: with_room(s.pending, false).push(placed(r, ListType::Actual, 0)),
                    completed: rest,
                }
            } else {
                StoreView {
                    pending: s.pending.push(
                        placed(r, ListType::Backlog, top_of_backlog(s.pending)),
                    ),
                    completed: rest,
                }
            }
        },
    }
}

/// The pending list after the ids of `ids`, taken in order, each gave its
/// place in `ids` as sort order to the first pending item that has it. Ids
/// that no pending item has are passed over.
pub open spec fn reordered(p: Seq<ReminderView>, ids: Seq<int>) -> Seq<ReminderView>
    decreases ids.len(),
{
    if ids.len() == 0 {
        p
    } else {
        let q = reordered(p, ids.drop_last());
        match position(q, ids.last()) {
            Some(i) => q.update(i, ReminderView { sort_order: ids.len() - 1, ..q[i] }),
            None => q,
        }
    }
}

} // verus!
