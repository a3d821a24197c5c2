//! What every command of the task store preserves.
//!
//! The Actual list never grows beyond its capacity, and no id is ever used
//! twice.

use vstd::prelude::*;
use crate::config::MAX_ACTUAL_TASKS;
use crate::reminder::{ListType, ReminderView, Urgency};
use crate::storage::admission::{
    bottom_of_actual, count_list, evicted, first_min, fits_i64, in_list, last_max,
    lemma_first_min,
    lemma_last_max, lemma_position, not_id, placed, position, promoted, shifted,
    top_of_backlog, with_room,
};
use crate::storage::merge::{has_id, unique_ids, StoreView};
use crate::storage::merge_laws::{
    lemma_has_id, lemma_joined_unique, lemma_valid_disjoint, lemma_valid_parts, valid_store,
};
use crate::storage::model::{
    added, completed, deleted, larger, max_id, moved, next_id, other_actual, reordered,
    uncompleted, updated, urgency_set,
};

verus! {

/// Whether the Actual list is within its capacity.
pub open spec fn within_capacity(p: Seq<ReminderView>) -> bool {
    count_list(p, ListType::Actual) <= MAX_ACTUAL_TASKS
}

/// Whether a change keeps the capacity: Actual is within its capacity
/// afterwards or, where it was beyond it before, has not grown.
pub open spec fn capacity_kept(before: Seq<ReminderView>, after: Seq<ReminderView>) -> bool {
    within_capacity(after) || count_list(after, ListType::Actual) <= count_list(
        before,
        ListType::Actual,
    )
}

/// 1 if `r` belongs to `list`, else 0.
pub open spec fn one_if_in(r: ReminderView, list: ListType) -> int {
    if r.list_type == list {
        1
    } else {
        0
    }
}

/// A list with one more item counts that item if it belongs.
pub proof fn lemma_count_push(p: Seq<ReminderView>, x: ReminderView, list: ListType)
    ensures
        count_list(p.push(x), list) == count_list(p, list) + one_if_in(x, list),
{
    reveal(Seq::filter);
    assert(p.push(x).drop_last() =~= p);
}

/// Counting looks at the lists of the items only.
pub proof fn lemma_count_same_lists(p: Seq<ReminderView>, q: Seq<ReminderView>, list: ListType)
    requires
        p.len() == q.len(),
        forall|i: int| 0 <= i < p.len() ==> (#[trigger] p[i]).list_type == q[i].list_type,
    ensures
        count_list(p, list) == count_list(q, list),
    decreases p.len(),
{
    reveal(Seq::filter);
    if p.len() > 0 {
        assert(p.last().list_type == q[q.len() - 1].list_type);
        assert forall|i: int| 0 <= i < p.drop_last().len() implies (
        #[trigger] p.drop_last()[i]).list_type == q.drop_last()[i].list_type by {
            assert(p[i].list_type == q[i].list_type);
        }
        lemma_count_same_lists(p.drop_last(), q.drop_last(), list);
    }
}

/// Replacing an item changes the count by what the old item counted and what
/// the new one counts.
pub proof fn lemma_count_update(p: Seq<ReminderView>, i: int, x: ReminderView, list: ListType)
    requires
        0 <= i < p.len(),
    ensures
        count_list(p.update(i, x), list) == count_list(p, list) - one_if_in(p[i], list)
            + one_if_in(x, list),
    decreases p.len(),
{
    reveal(Seq::filter);
    let q = p.update(i, x);
    if i == p.len() - 1 {
        assert(q.drop_last() =~= p.drop_last());
    } else {
        lemma_count_update(p.drop_last(), i, x, list);
        assert(q.drop_last() =~= p.drop_last().update(i, x));
    }
}

/// Taking an item out changes the count by what the item counted.
pub proof fn lemma_count_remove(p: Seq<ReminderView>, i: int, list: ListType)
    requires
        0 <= i < p.len(),
    ensures
        count_list(p.remove(i), list) == count_list(p, list) - one_if_in(p[i], list),
    decreases p.len(),
{
    reveal(Seq::filter);
    let q = p.remove(i);
    if i == p.len() - 1 {
        assert(q =~= p.drop_last());
    } else {
        lemma_count_remove(p.drop_last(), i, list);
        assert(q.drop_last() =~= p.drop_last().remove(i));
        assert(q.last() == p.last());
    }
}

/// Keeping only some items does not raise the count.
pub proof fn lemma_count_filter(
    p: Seq<ReminderView>,
    keep: spec_fn(ReminderView) -> bool,
    list: ListType,
)
    ensures
        count_list(p.filter(keep), list) <= count_list(p, list),
    decreases p.len(),
{
    reveal(Seq::filter);
    if p.len() > 0 {
        lemma_count_filter(p.drop_last(), keep, list);
        if keep(p.last()) {
            lemma_count_push(p.drop_last().filter(keep), p.last(), list);
        }
    }
}

/// Where nothing belongs to the list, the count is 0; where something does,
/// it is not.
pub proof fn lemma_count_zero(p: Seq<ReminderView>, list: ListType)
    ensures
        count_list(p, list) == 0 <==> forall|i: int|
            0 <= i < p.len() ==> (#[trigger] p[i]).list_type != list,
    decreases p.len(),
{
    reveal(Seq::filter);
    if p.len() > 0 {
        lemma_count_zero(p.drop_last(), list);
        assert(forall|i: int| 0 <= i < p.len() - 1 ==> p.drop_last()[i] == p[i]);
        if count_list(p, list) == 0 {
            assert(p.last().list_type != list);
            assert forall|i: int| 0 <= i < p.len() implies (#[trigger] p[i]).list_type
                != list by {
                if i < p.len() - 1 {
                    assert(p.drop_last()[i].list_type != list);
                }
            }
        }
        if forall|i: int| 0 <= i < p.len() ==> (#[trigger] p[i]).list_type != list {
            assert(p[p.len() - 1].list_type != list);
            assert forall|i: int| 0 <= i < p.drop_last().len() implies (
            #[trigger] p.drop_last()[i]).list_type != list by {
                assert(p[i].list_type != list);
            }
        }
    }
}

/// Evicting takes one item out of Actual, if Actual has any.
pub proof fn lemma_evicted_count(p: Seq<ReminderView>)
    ensures
        count_list(evicted(p), ListType::Actual) == if count_list(p, ListType::Actual) == 0 {
            0
        } else {
            count_list(p, ListType::Actual) - 1
        },
{
    lemma_last_max(p, ListType::Actual);
    lemma_count_zero(p, ListType::Actual);
    match last_max(p, ListType::Actual) {
        Some(i) => {
            lemma_count_update(
                p,
                i,
                placed(p[i], ListType::Backlog, top_of_backlog(p)),
                ListType::Actual,
            );
        },
        None => {},
    }
}

/// Making room leaves Actual with one item less if Actual was full and not
/// empty, and with as many as before otherwise.
pub proof fn lemma_with_room_count(p: Seq<ReminderView>, full: bool)
    ensures
        count_list(with_room(p, full), ListType::Actual) == if full && count_list(
            p,
            ListType::Actual,
        ) > 0 {
            count_list(p, ListType::Actual) - 1
        } else {
            count_list(p, ListType::Actual) as int
        },
{
    let w = if full { evicted(p) } else { p };
    lemma_evicted_count(p);
    lemma_count_same_lists(w, shifted(w), ListType::Actual);
}

/// Promoting keeps the capacity.
pub proof fn lemma_promoted_keeps_capacity(p: Seq<ReminderView>)
    ensures
        capacity_kept(p, promoted(p)),
{
    lemma_first_min(p, ListType::Backlog);
    match first_min(p, ListType::Backlog) {
        Some(i) => {
            lemma_count_update(
                p,
                i,
                placed(p[i], ListType::Actual, bottom_of_actual(p)),
                ListType::Actual,
            );
        },
        None => {},
    }
}

/// Adding keeps the capacity.
pub proof fn lemma_added_keeps_capacity(s: StoreView, r: ReminderView)
    ensures
        capacity_kept(s.pending, added(s, r).pending),
{
    let full = count_list(s.pending, ListType::Actual) >= MAX_ACTUAL_TASKS;
    lemma_with_room_count(s.pending, full);
    if r.list_type == ListType::Actual {
        lemma_count_push(
            with_room(s.pending, full),
            added(s, r).pending.last(),
            ListType::Actual,
        );
        assert(added(s, r).pending.drop_last() =~= with_room(s.pending, full));
    } else {
        lemma_count_push(s.pending, added(s, r).pending.last(), ListType::Actual);
        assert(added(s, r).pending.drop_last() =~= s.pending);
    }
}

/// Deleting keeps the capacity.
pub proof fn lemma_deleted_keeps_capacity(s: StoreView, id: int)
    ensures
        capacity_kept(s.pending, deleted(s, id).pending),
{
    lemma_count_filter(s.pending, not_id(id), ListType::Actual);
    lemma_promoted_keeps_capacity(s.pending.filter(not_id(id)));
}

/// Completing keeps the capacity.
pub proof fn lemma_completed_keeps_capacity(s: StoreView, id: int, stamp: Seq<char>)
    ensures
        capacity_kept(s.pending, completed(s, id, stamp).pending),
{
    lemma_position(s.pending, id);
    match position(s.pending, id) {
        Some(i) => {
            lemma_count_remove(s.pending, i, ListType::Actual);
            lemma_promoted_keeps_capacity(s.pending.remove(i));
        },
        None => {},
    }
}

/// Uncompleting keeps the capacity.
pub proof fn lemma_uncompleted_keeps_capacity(s: StoreView, id: int)
    ensures
        capacity_kept(s.pending, uncompleted(s, id).pending),
{
    let goal = uncompleted(s, id).pending;
    match position(s.completed, id) {
        Some(i) => {
            lemma_with_room_count(s.pending, false);
            if count_list(s.pending, ListType::Actual) < MAX_ACTUAL_TASKS {
                lemma_count_push(with_room(s.pending, false), goal.last(), ListType::Actual);
                assert(goal.drop_last() =~= with_room(s.pending, false));
            } else {
                lemma_count_push(s.pending, goal.last(), ListType::Actual);
                assert(goal.drop_last() =~= s.pending);
            }
        },
        None => {},
    }
}

/// Updating and setting the urgency leave the lists of the items alone.
pub proof fn lemma_updated_keeps_capacity(
    s: StoreView,
    id: int,
    message: Seq<char>,
    urgency: Urgency,
)
    ensures
        capacity_kept(s.pending, updated(s, id, message, urgency).pending),
        capacity_kept(s.pending, urgency_set(s, id, urgency).pending),
{
    lemma_position(s.pending, id);
    lemma_count_same_lists(s.pending, updated(s, id, message, urgency).pending, ListType::Actual);
    lemma_count_same_lists(s.pending, urgency_set(s, id, urgency).pending, ListType::Actual);
}

/// Reordering changes sort orders only: ids and lists stay where they are.
pub proof fn lemma_reordered_keeps(p: Seq<ReminderView>, ids: Seq<int>)
    ensures
        reordered(p, ids).len() == p.len(),
        forall|i: int|
            0 <= i < p.len() ==> (#[trigger] reordered(p, ids)[i]) == (ReminderView {
                sort_order: reordered(p, ids)[i].sort_order,
                ..p[i]
            }),
    decreases ids.len(),
{
    if ids.len() > 0 {
        lemma_reordered_keeps(p, ids.drop_last());
        lemma_position(reordered(p, ids.drop_last()), ids.last());
    }
}

/// Reordering keeps the capacity.
pub proof fn lemma_reordered_keeps_capacity(p: Seq<ReminderView>, ids: Seq<int>)
    ensures
        capacity_kept(p, reordered(p, ids)),
{
    lemma_reordered_keeps(p, ids);
    lemma_count_same_lists(p, reordered(p, ids), ListType::Actual);
}

/// Whether `q` has the ids of `p`, each in its place.
pub open spec fn same_ids(p: Seq<ReminderView>, q: Seq<ReminderView>) -> bool {
    &&& p.len() == q.len()
    &&& forall|i: int| 0 <= i < p.len() ==> (#[trigger] p[i]).id == q[i].id
}

/// Lists with the same ids in the same places have the same ids, and repeat
/// an id only together.
pub proof fn lemma_same_ids(p: Seq<ReminderView>, q: Seq<ReminderView>)
    requires
        same_ids(p, q),
    ensures
        unique_ids(p) ==> unique_ids(q),
        forall|id: int| #[trigger] has_id(q, id) <==> has_id(p, id),
        forall|id: int| #[trigger] position(q, id) == position(p, id),
{
    assert forall|id: int| #[trigger] position(q, id) == position(p, id) by {
        lemma_position(p, id);
        lemma_position(q, id);
        if position(p, id) is Some {
            let i = position(p, id)->0;
            assert(q[i].id == id);
        }
        if position(q, id) is Some {
            let i = position(q, id)->0;
            assert(p[i].id == q[i].id);
        }
    }
    if unique_ids(p) {
        assert forall|i: int, j: int| 0 <= i < j < q.len() implies (#[trigger] q[i]).id != (
        #[trigger] q[j]).id by {
            assert(p[i].id == q[i].id);
            assert(p[j].id == q[j].id);
        }
    }
}

/// Making room and promoting leave every id in its place.
pub proof fn lemma_policy_keeps_ids(p: Seq<ReminderView>, full: bool)
    ensures
        same_ids(p, evicted(p)),
        same_ids(p, shifted(p)),
        same_ids(p, with_room(p, full)),
        same_ids(p, promoted(p)),
{
    lemma_last_max(p, ListType::Actual);
    lemma_first_min(p, ListType::Backlog);
    let w = if full { evicted(p) } else { p };
    assert(same_ids(w, shifted(w)));
    assert forall|i: int| 0 <= i < p.len() implies (#[trigger] p[i]).id == with_room(
        p,
        full,
    )[i].id by {
        assert(w[i].id == shifted(w)[i].id);
    }
}

/// A list with one more item has no repeated id exactly when the list had
/// none and the item's id is new.
pub proof fn lemma_unique_push(p: Seq<ReminderView>, x: ReminderView)
    ensures
        unique_ids(p.push(x)) <==> unique_ids(p) && !has_id(p, x.id),
        forall|id: int| #[trigger] has_id(p.push(x), id) <==> has_id(p, id) || id == x.id,
{
    let q = p.push(x);
    assert forall|id: int| has_id(q, id) <==> has_id(p, id) || id == x.id by {
        lemma_has_id(p, id);
        lemma_has_id(q, id);
        if has_id(p, id) {
            let i = choose|i: int| 0 <= i < p.len() && (#[trigger] p[i]).id == id;
            assert(q[i].id == id);
        }
        if id == x.id {
            assert(q[p.len() as int].id == id);
        }
        if has_id(q, id) {
            let i = choose|i: int| 0 <= i < q.len() && (#[trigger] q[i]).id == id;
            if i < p.len() {
                assert(p[i].id == id);
            }
        }
    }
    lemma_has_id(p, x.id);
    if unique_ids(q) {
        assert forall|i: int, j: int| 0 <= i < j < p.len() implies (#[trigger] p[i]).id != (
        #[trigger] p[j]).id by {
            assert(q[i] == p[i] && q[j] == p[j]);
        }
        if has_id(p, x.id) {
            let i = choose|i: int| 0 <= i < p.len() && (#[trigger] p[i]).id == x.id;
            assert(q[i] == p[i]);
            assert(q[p.len() as int] == x);
        }
    }
    if unique_ids(p) && !has_id(p, x.id) {
        assert forall|i: int, j: int| 0 <= i < j < q.len() implies (#[trigger] q[i]).id != (
        #[trigger] q[j]).id by {
            assert(q[i] == p[i]);
            if j < p.len() {
                assert(q[j] == p[j]);
            }
        }
    }
}

/// Taking an item out of a list without repeated ids leaves no repeated id,
/// and takes exactly the item's id out.
pub proof fn lemma_unique_remove(p: Seq<ReminderView>, i: int)
    requires
        unique_ids(p),
        0 <= i < p.len(),
    ensures
        unique_ids(p.remove(i)),
        forall|id: int| #[trigger] has_id(p.remove(i), id) <==> has_id(p, id) && id != p[i].id,
{
    let q = p.remove(i);
    assert forall|a: int, b: int| 0 <= a < b < q.len() implies (#[trigger] q[a]).id != (
    #[trigger] q[b]).id by {
        assert(q[a] == p[if a < i { a } else { a + 1 }]);
        assert(q[b] == p[if b < i { b } else { b + 1 }]);
    }
    assert forall|id: int| has_id(q, id) <==> has_id(p, id) && id != p[i].id by {
        lemma_has_id(p, id);
        lemma_has_id(q, id);
        if has_id(q, id) {
            let a = choose|a: int| 0 <= a < q.len() && (#[trigger] q[a]).id == id;
            assert(q[a] == p[if a < i { a } else { a + 1 }]);
        }
        if has_id(p, id) && id != p[i].id {
            let a = choose|a: int| 0 <= a < p.len() && (#[trigger] p[a]).id == id;
            if a < i {
                assert(q[a] == p[a]);
            } else {
                assert(q[a - 1] == p[a]);
            }
        }
    }
}

/// In a list without repeated ids, removing every item with an id removes
/// the one item that has it, if there is one.
pub proof fn lemma_filter_unique(p: Seq<ReminderView>, id: int)
    requires
        unique_ids(p),
    ensures
        p.filter(not_id(id)) == match position(p, id) {
            Some(i) => p.remove(i),
            None => p,
        },
    decreases p.len(),
{
    reveal(Seq::filter);
    if p.len() > 0 {
        let q = p.drop_last();
        let x = p.last();
        assert(p =~= q.push(x));
        lemma_unique_push(q, x);
        lemma_filter_unique(q, id);
        lemma_position(q, id);
        lemma_position(p, id);
        if x.id == id {
            assert(p.remove(p.len() - 1) =~= q);
        } else {
            match position(q, id) {
                Some(i) => {
                    assert(q.remove(i).push(x) =~= p.remove(i));
                },
                None => {},
            }
        }
    } else {
        assert(p.filter(not_id(id)) =~= p);
    }
}

/// What makes a store valid: neither list repeats an id, and no id is in
/// both.
pub proof fn lemma_valid_store(s: StoreView)
    ensures
        valid_store(s) <==> unique_ids(s.pending) && unique_ids(s.completed) && forall|id: int|
            !(has_id(s.pending, id) && has_id(s.completed, id)),
{
    if valid_store(s) {
        lemma_valid_parts(s);
        assert forall|id: int| !(has_id(s.pending, id) && has_id(s.completed, id)) by {
            lemma_valid_disjoint(s, id);
        }
    }
    if unique_ids(s.pending) && unique_ids(s.completed) && forall|id: int|
        !(has_id(s.pending, id) && has_id(s.completed, id)) {
        lemma_joined_unique(s.pending, s.completed);
    }
}

/// The largest id of a list is an id of the list and no id is larger.
pub proof fn lemma_max_id(p: Seq<ReminderView>)
    ensures
        match max_id(p) {
            Some(m) => has_id(p, m) && forall|i: int| 0 <= i < p.len() ==> (#[trigger] p[i]).id <= m,
            None => p.len() == 0,
        },
    decreases p.len(),
{
    if p.len() > 0 {
        let q = p.drop_last();
        lemma_max_id(q);
        lemma_unique_push(q, p.last());
        assert(p =~= q.push(p.last()));
        assert(forall|i: int| 0 <= i < q.len() ==> q[i] == p[i]);
    }
}

/// The next id is fresh: larger than every id in the store.
pub proof fn lemma_next_id_fresh(s: StoreView)
    ensures
        forall|i: int| 0 <= i < s.pending.len() ==> (#[trigger] s.pending[i]).id < next_id(s),
        forall|i: int| 0 <= i < s.completed.len() ==> (#[trigger] s.completed[i]).id < next_id(s),
        !has_id(s.pending, next_id(s)),
        !has_id(s.completed, next_id(s)),
{
    lemma_max_id(s.pending);
    lemma_max_id(s.completed);
    lemma_has_id(s.pending, next_id(s));
    lemma_has_id(s.completed, next_id(s));
}

/// Two predicates that agree on every item of a list keep the same items.
pub proof fn lemma_filter_agree(
    p: Seq<ReminderView>,
    f: spec_fn(ReminderView) -> bool,
    g: spec_fn(ReminderView) -> bool,
)
    requires
        forall|i: int| 0 <= i < p.len() ==> f(#[trigger] p[i]) == g(p[i]),
    ensures
        p.filter(f) == p.filter(g),
    decreases p.len(),
{
    reveal(Seq::filter);
    if p.len() > 0 {
        assert(f(p[p.len() - 1]) == g(p[p.len() - 1]));
        assert forall|i: int| 0 <= i < p.drop_last().len() implies f(#[trigger] p.drop_last()[i])
            == g(p.drop_last()[i]) by {
            assert(p.drop_last()[i] == p[i]);
        }
        lemma_filter_agree(p.drop_last(), f, g);
    }
}

/// Moving keeps the capacity, in a list without repeated ids.
pub proof fn lemma_moved_keeps_capacity(s: StoreView, id: int, to: ListType)
    requires
        unique_ids(s.pending),
    ensures
        capacity_kept(s.pending, moved(s, id, to).pending),
{
    let p = s.pending;
    lemma_position(p, id);
    match position(p, id) {
        Some(i) => {
            if p[i].list_type != to {
                if to == ListType::Actual {
                    assert forall|j: int| 0 <= j < p.len() implies other_actual(id)(
                        #[trigger] p[j],
                    ) == in_list(ListType::Actual)(p[j]) by {
                        if j != i {
                            assert(p[if j < i { j } else { i }].id != p[if j < i { i } else { j }].id);
                        }
                    }
                    lemma_filter_agree(p, other_actual(id), in_list(ListType::Actual));
                    let full = p.filter(other_actual(id)).len() >= MAX_ACTUAL_TASKS;
                    let q = with_room(p, full);
                    lemma_with_room_count(p, full);
                    lemma_policy_keeps_ids(p, full);
                    lemma_last_max(p, ListType::Actual);
                    assert(q[i].list_type == ListType::Backlog);
                    lemma_count_update(q, i, placed(q[i], ListType::Actual, 0), ListType::Actual);
                } else {
                    lemma_count_update(
                        p,
                        i,
                        placed(p[i], ListType::Backlog, top_of_backlog(p)),
                        ListType::Actual,
                    );
                }
            }
        },
        None => {},
    }
}

/// A command of the task store, with its arguments.
pub enum Command {
    Add(ReminderView),
    Update(int, Seq<char>, Urgency),
    SetUrgency(int, Urgency),
    Move(int, ListType),
    Delete(int),
    Complete(int, Seq<char>),
    Uncomplete(int),
    Reorder(Seq<int>),
}

/// The store after a command.
pub open spec fn applied(s: StoreView, c: Command) -> StoreView {
    match c {
        Command::Add(r) => added(s, r),
        Command::Update(id, message, urgency) => updated(s, id, message, urgency),
        Command::SetUrgency(id, urgency) => urgency_set(s, id, urgency),
        Command::Move(id, to) => moved(s, id, to),
        Command::Delete(id) => deleted(s, id),
        Command::Complete(id, stamp) => completed(s, id, stamp),
        Command::Uncomplete(id) => uncompleted(s, id),
        Command::Reorder(ids) => StoreView {
            pending: reordered(s.pending, ids),
            completed: s.completed,
        },
    }
}

/// The store after a sequence of commands.
pub open spec fn run(s: StoreView, commands: Seq<Command>) -> StoreView
    decreases commands.len(),
{
    if commands.len() == 0 {
        s
    } else {
        applied(run(s, commands.drop_last()), commands.last())
    }
}

/// The invariant of the store: every id occurs once in the whole store, and
/// Actual is within its capacity.
pub open spec fn store_invariant(s: StoreView) -> bool {
    valid_store(s) && within_capacity(s.pending)
}

/// The empty store satisfies the invariant.
pub proof fn lemma_empty_store_invariant(s: StoreView)
    requires
        s.pending.len() == 0,
        s.completed.len() == 0,
    ensures
        store_invariant(s),
{
    reveal(Seq::filter);
}

/// Adding keeps every id of the store unique: the new id is fresh.
pub proof fn lemma_added_keeps_valid(s: StoreView, r: ReminderView)
    requires
        valid_store(s),
    ensures
        valid_store(added(s, r)),
{
    let t = added(s, r);
    lemma_valid_store(s);
    lemma_valid_store(t);
    let p = s.pending;
    lemma_next_id_fresh(s);
    let full = count_list(p, ListType::Actual) >= MAX_ACTUAL_TASKS;
    let base = if r.list_type == ListType::Actual { with_room(p, full) } else { p };
    lemma_policy_keeps_ids(p, full);
    lemma_same_ids(p, base);
    let x = t.pending.last();
    assert(t.pending =~= base.push(x));
    lemma_unique_push(base, x);
    assert forall|id: int| !(has_id(t.pending, id) && has_id(t.completed, id)) by {
        assert(has_id(base, id) <==> has_id(p, id));
    }
}

/// Updating, setting the urgency, moving and reordering keep every id of
/// the store unique: they leave every id in its place.
pub proof fn lemma_edits_keep_valid(s: StoreView, t: StoreView)
    requires
        valid_store(s),
        same_ids(s.pending, t.pending),
        t.completed == s.completed,
    ensures
        valid_store(t),
{
    lemma_valid_store(s);
    lemma_valid_store(t);
    lemma_same_ids(s.pending, t.pending);
    assert forall|id: int| !(has_id(t.pending, id) && has_id(t.completed, id)) by {
        assert(has_id(s.pending, id) <==> has_id(t.pending, id));
    }
}

/// Moving leaves every id in its place.
pub proof fn lemma_moved_keeps_ids(s: StoreView, id: int, to: ListType)
    ensures
        same_ids(s.pending, moved(s, id, to).pending),
        moved(s, id, to).completed == s.completed,
{
    let p = s.pending;
    let t = moved(s, id, to);
    lemma_position(p, id);
    let full = p.filter(other_actual(id)).len() >= MAX_ACTUAL_TASKS;
    lemma_policy_keeps_ids(p, full);
    assert forall|i: int| 0 <= i < p.len() implies (#[trigger] p[i]).id == t.pending[i].id by {
        assert(p[i].id == with_room(p, full)[i].id);
    }
}

/// Deleting keeps every id of the store unique.
pub proof fn lemma_deleted_keeps_valid(s: StoreView, id: int)
    requires
        valid_store(s),
    ensures
        valid_store(deleted(s, id)),
{
    let t = deleted(s, id);
    lemma_valid_store(s);
    lemma_valid_store(t);
    let p = s.pending;
    let d = s.completed;
    lemma_filter_unique(p, id);
    lemma_filter_unique(d, id);
    lemma_position(p, id);
    lemma_position(d, id);
    let rest = p.filter(not_id(id));
    if position(p, id) is Some {
        lemma_unique_remove(p, position(p, id)->0);
    }
    if position(d, id) is Some {
        lemma_unique_remove(d, position(d, id)->0);
    }
    lemma_policy_keeps_ids(rest, false);
    lemma_same_ids(rest, promoted(rest));
    assert forall|k: int| !(has_id(t.pending, k) && has_id(t.completed, k)) by {
        assert(has_id(rest, k) <==> has_id(promoted(rest), k));
        assert(has_id(rest, k) ==> has_id(p, k));
        assert(has_id(t.completed, k) ==> has_id(d, k));
    }
}

/// Completing keeps every id of the store unique.
pub proof fn lemma_completed_keeps_valid(s: StoreView, id: int, stamp: Seq<char>)
    requires
        valid_store(s),
    ensures
        valid_store(completed(s, id, stamp)),
{
    let t = completed(s, id, stamp);
    lemma_valid_store(s);
    lemma_valid_store(t);
    let p = s.pending;
    let d = s.completed;
    lemma_position(p, id);
    match position(p, id) {
        Some(i) => {
            let rest = p.remove(i);
            assert(p[i].id == id);
            lemma_unique_remove(p, i);
            lemma_policy_keeps_ids(rest, false);
            lemma_same_ids(rest, promoted(rest));
            let x = t.completed.last();
            assert(t.completed =~= d.push(x));
            lemma_unique_push(d, x);
            assert forall|k: int| !(has_id(t.pending, k) && has_id(t.completed, k)) by {
                assert(has_id(rest, k) <==> has_id(promoted(rest), k));
                assert(has_id(rest, k) <==> has_id(p, k) && k != id);
                assert(has_id(t.completed, k) <==> has_id(d, k) || k == id);
            }
        },
        None => {},
    }
}

/// Uncompleting keeps every id of the store unique.
pub proof fn lemma_uncompleted_keeps_valid(s: StoreView, id: int)
    requires
        valid_store(s),
    ensures
        valid_store(uncompleted(s, id)),
{
    let t = uncompleted(s, id);
    lemma_valid_store(s);
    lemma_valid_store(t);
    let p = s.pending;
    let d = s.completed;
    lemma_position(d, id);
    match position(d, id) {
        Some(i) => {
            lemma_unique_remove(d, i);
            let base = if count_list(p, ListType::Actual) < MAX_ACTUAL_TASKS {
                with_room(p, false)
            } else {
                p
            };
            lemma_policy_keeps_ids(p, false);
            lemma_same_ids(p, base);
            let x = t.pending.last();
            assert(t.pending =~= base.push(x));
            lemma_unique_push(base, x);
            assert(t.completed == d.remove(i));
            assert forall|k: int| !(has_id(t.pending, k) && has_id(t.completed, k)) by {
                assert(has_id(base, k) <==> has_id(p, k));
                assert(has_id(t.pending, k) <==> has_id(base, k) || k == id);
                assert(has_id(t.completed, k) <==> has_id(d, k) && k != id);
            }
        },
        None => {},
    }
}

/// Every command keeps every id of the store unique.
pub proof fn lemma_command_keeps_valid(s: StoreView, c: Command)
    requires
        valid_store(s),
    ensures
        valid_store(applied(s, c)),
{
    let t = applied(s, c);
    match c {
        Command::Add(r) => lemma_added_keeps_valid(s, r),
        Command::Update(id, message, urgency) => {
            lemma_position(s.pending, id);
            lemma_edits_keep_valid(s, t);
        },
        Command::SetUrgency(id, urgency) => {
            lemma_position(s.pending, id);
            lemma_edits_keep_valid(s, t);
        },
        Command::Move(id, to) => {
            lemma_moved_keeps_ids(s, id, to);
            lemma_edits_keep_valid(s, t);
        },
        Command::Delete(id) => lemma_deleted_keeps_valid(s, id),
        Command::Complete(id, stamp) => lemma_completed_keeps_valid(s, id, stamp),
        Command::Uncomplete(id) => lemma_uncompleted_keeps_valid(s, id),
        Command::Reorder(ids) => {
            lemma_reordered_keeps(s.pending, ids);
            lemma_edits_keep_valid(s, t);
        },
    }
}

/// Every command keeps the invariant of the store.
pub proof fn lemma_command_keeps_invariant(s: StoreView, c: Command)
    requires
        store_invariant(s),
    ensures
        store_invariant(applied(s, c)),
{
    lemma_command_keeps_valid(s, c);
    lemma_valid_parts(s);
    match c {
        Command::Add(r) => lemma_added_keeps_capacity(s, r),
        Command::Update(id, message, urgency) => lemma_updated_keeps_capacity(
            s,
            id,
            message,
            urgency,
        ),
        Command::SetUrgency(id, urgency) => lemma_updated_keeps_capacity(
            s,
            id,
            Seq::empty(),
            urgency,
        ),
        Command::Move(id, to) => lemma_moved_keeps_capacity(s, id, to),
        Command::Delete(id) => lemma_deleted_keeps_capacity(s, id),
        Command::Complete(id, stamp) => lemma_completed_keeps_capacity(s, id, stamp),
        Command::Uncomplete(id) => lemma_uncompleted_keeps_capacity(s, id),
        Command::Reorder(ids) => lemma_reordered_keeps_capacity(s.pending, ids),
    }
}

/// Whatever commands are run on a store that satisfies the invariant, the
/// invariant holds after each of them: no id is used twice, and Actual never
/// holds more than its capacity.
pub proof fn lemma_invariant_always(s: StoreView, commands: Seq<Command>, n: int)
    requires
        store_invariant(s),
        0 <= n <= commands.len(),
    ensures
        store_invariant(run(s, commands.take(n))),
    decreases n,
{
    if n > 0 {
        lemma_invariant_always(s, commands, n - 1);
        assert(commands.take(n).drop_last() =~= commands.take(n - 1));
        lemma_command_keeps_invariant(run(s, commands.take(n - 1)), commands[n - 1]);
    }
}

/// The last place at which `id` stands in `ids`.
pub open spec fn last_place(ids: Seq<int>, id: int) -> Option<int>
    decreases ids.len(),
{
    if ids.len() == 0 {
        None
    } else if ids.last() == id {
        Some(ids.len() - 1)
    } else {
        last_place(ids.drop_last(), id)
    }
}

/// What reordering does to each pending item: the first item with a listed
/// id gets the last place of its id in the list as sort order; every other
/// item is untouched.
pub proof fn lemma_reordered_item(p: Seq<ReminderView>, ids: Seq<int>, i: int)
    requires
        0 <= i < p.len(),
    ensures
        reordered(p, ids).len() == p.len(),
        reordered(p, ids)[i] == if position(p, p[i].id) == Some(i) {
            match last_place(ids, p[i].id) {
                Some(k) => ReminderView { sort_order: k, ..p[i] },
                None => p[i],
            }
        } else {
            p[i]
        },
    decreases ids.len(),
{
    lemma_reordered_keeps(p, ids);
    if ids.len() > 0 {
        let q = reordered(p, ids.drop_last());
        lemma_reordered_item(p, ids.drop_last(), i);
        lemma_reordered_keeps(p, ids.drop_last());
        assert(same_ids(p, q)) by {
            assert forall|j: int| 0 <= j < p.len() implies (#[trigger] p[j]).id == q[j].id by {
                assert(q[j].id == p[j].id);
            }
        }
        lemma_same_ids(p, q);
        lemma_position(p, ids.last());
        assert(position(q, ids.last()) == position(p, ids.last()));
    }
}

/// In a pending list without repeated ids, reordering by a list without
/// repeated ids gives every listed item its place in the list as sort order.
pub proof fn lemma_reordered_places(p: Seq<ReminderView>, ids: Seq<int>, i: int, k: int)
    requires
        unique_ids(p),
        ids.no_duplicates(),
        0 <= i < p.len(),
        0 <= k < ids.len(),
        ids[k] == p[i].id,
    ensures
        reordered(p, ids)[i] == (ReminderView { sort_order: k, ..p[i] }),
{
    lemma_reordered_item(p, ids, i);
    lemma_position(p, p[i].id);
    let first = position(p, p[i].id)->0;
    if first != i {
        assert(p[first].id != p[i].id);
    }
    lemma_last_place(ids, p[i].id);
}

/// What `last_place` finds: the last place of the id, or nothing when the
/// id is not listed.
pub proof fn lemma_last_place(ids: Seq<int>, id: int)
    ensures
        match last_place(ids, id) {
            Some(k) => 0 <= k < ids.len() && ids[k] == id && forall|j: int|
                k < j < ids.len() ==> ids[j] != id,
            None => forall|j: int| 0 <= j < ids.len() ==> ids[j] != id,
        },
    decreases ids.len(),
{
    if ids.len() > 0 {
        lemma_last_place(ids.drop_last(), id);
        assert(forall|j: int| 0 <= j < ids.len() - 1 ==> ids.drop_last()[j] == ids[j]);
    }
}

/// The top of the Backlog is above every Backlog item, and the bottom of
/// Actual is below every Actual item.
pub proof fn lemma_top_and_bottom(p: Seq<ReminderView>, j: int)
    requires
        0 <= j < p.len(),
    ensures
        p[j].list_type == ListType::Backlog ==> top_of_backlog(p) < p[j].sort_order,
        p[j].list_type == ListType::Actual ==> p[j].sort_order < bottom_of_actual(p),
{
    lemma_first_min(p, ListType::Backlog);
    lemma_last_max(p, ListType::Actual);
}

/// What eviction does: the Actual item with the largest sort order, the last
/// of them if several have it, goes to the Backlog, above every item that
/// was there; nothing else changes.
pub proof fn lemma_eviction(p: Seq<ReminderView>)
    requires
        count_list(p, ListType::Actual) > 0,
    ensures
        last_max(p, ListType::Actual) is Some,
        ({
            let i = last_max(p, ListType::Actual)->0;
            &&& 0 <= i < p.len()
            &&& p[i].list_type == ListType::Actual
            &&& forall|j: int|
                0 <= j < p.len() && (#[trigger] p[j]).list_type == ListType::Actual
                    ==> p[j].sort_order <= p[i].sort_order
            &&& evicted(p).len() == p.len()
            &&& evicted(p)[i] == placed(p[i], ListType::Backlog, top_of_backlog(p))
            &&& forall|j: int|
                0 <= j < p.len() && (#[trigger] p[j]).list_type == ListType::Backlog
                    ==> evicted(p)[i].sort_order < p[j].sort_order
            &&& forall|j: int| 0 <= j < p.len() && j != i ==> #[trigger] evicted(p)[j] == p[j]
            &&& count_list(evicted(p), ListType::Actual) == count_list(p, ListType::Actual) - 1
        }),
{
    lemma_last_max(p, ListType::Actual);
    lemma_first_min(p, ListType::Backlog);
    lemma_count_zero(p, ListType::Actual);
    lemma_evicted_count(p);
}

/// What promotion does where Actual has room, the Backlog is not empty, and
/// a sort order is left: the Backlog item with the smallest sort order, the
/// first of them if several have it, goes to Actual, below every item that
/// was there; nothing else changes.
pub proof fn lemma_promotion(p: Seq<ReminderView>)
    requires
        count_list(p, ListType::Actual) < MAX_ACTUAL_TASKS,
        count_list(p, ListType::Backlog) > 0,
        fits_i64(bottom_of_actual(p)),
    ensures
        first_min(p, ListType::Backlog) is Some,
        ({
            let i = first_min(p, ListType::Backlog)->0;
            &&& 0 <= i < p.len()
            &&& p[i].list_type == ListType::Backlog
            &&& forall|j: int|
                0 <= j < p.len() && (#[trigger] p[j]).list_type == ListType::Backlog
                    ==> p[i].sort_order <= p[j].sort_order
            &&& promoted(p).len() == p.len()
            &&& promoted(p)[i] == placed(p[i], ListType::Actual, bottom_of_actual(p))
            &&& forall|j: int|
                0 <= j < p.len() && (#[trigger] p[j]).list_type == ListType::Actual
                    ==> p[j].sort_order < promoted(p)[i].sort_order
            &&& forall|j: int| 0 <= j < p.len() && j != i ==> #[trigger] promoted(p)[j] == p[j]
            &&& count_list(promoted(p), ListType::Actual) == count_list(p, ListType::Actual) + 1
        }),
{
    lemma_last_max(p, ListType::Actual);
    lemma_first_min(p, ListType::Backlog);
    lemma_count_zero(p, ListType::Backlog);
    let i = first_min(p, ListType::Backlog)->0;
    lemma_count_update(
        p,
        i,
        placed(p[i], ListType::Actual, bottom_of_actual(p)),
        ListType::Actual,
    );
}

/// Every command but a move keeps the capacity, whatever the store holds; a
/// move does in a list without repeated ids.
pub proof fn lemma_command_keeps_capacity(s: StoreView, c: Command)
    requires
        c is Move ==> unique_ids(s.pending),
    ensures
        capacity_kept(s.pending, applied(s, c).pending),
{
    match c {
        Command::Add(r) => lemma_added_keeps_capacity(s, r),
        Command::Update(id, message, urgency) => lemma_updated_keeps_capacity(
            s,
            id,
            message,
            urgency,
        ),
        Command::SetUrgency(id, urgency) => lemma_updated_keeps_capacity(
            s,
            id,
            Seq::empty(),
            urgency,
        ),
        Command::Move(id, to) => lemma_moved_keeps_capacity(s, id, to),
        Command::Delete(id) => lemma_deleted_keeps_capacity(s, id),
        Command::Complete(id, stamp) => lemma_completed_keeps_capacity(s, id, stamp),
        Command::Uncomplete(id) => lemma_uncompleted_keeps_capacity(s, id),
        Command::Reorder(ids) => lemma_reordered_keeps_capacity(s.pending, ids),
    }
}

/// Whatever commands other than moves are run on a store whose Actual list
/// is within its capacity, adding, deleting and completing among them,
/// Actual is within its capacity after each of them.
pub proof fn lemma_capacity_always(s: StoreView, commands: Seq<Command>, n: int)
    requires
        within_capacity(s.pending),
        forall|i: int| 0 <= i < commands.len() ==> !(#[trigger] commands[i] is Move),
        0 <= n <= commands.len(),
    ensures
        within_capacity(run(s, commands.take(n)).pending),
    decreases n,
{
    if n > 0 {
        lemma_capacity_always(s, commands, n - 1);
        assert(commands.take(n).drop_last() =~= commands.take(n - 1));
        assert(!(commands[n - 1] is Move));
        lemma_command_keeps_capacity(run(s, commands.take(n - 1)), commands[n - 1]);
    }
}

} // verus!
