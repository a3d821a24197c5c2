//! The bounded-list policy.
//!
//! The Actual list holds at most [`MAX_ACTUAL_TASKS`] items. Admitting one
//! more evicts the least prioritized Actual item to the top of the Backlog;
//! freeing a slot promotes the top Backlog item to the bottom of Actual.
//!
//! Everything is stated over sequences of [`ReminderView`]; the executable
//! functions work on `Vec<Reminder>` and are proved to compute the same
//! values.

use vstd::prelude::*;
use crate::config::MAX_ACTUAL_TASKS;
use crate::reminder::{ListType, Reminder, ReminderView};

verus! {

/// The views of the items of a list, in order.
pub open spec fn views(s: Seq<Reminder>) -> Seq<ReminderView> {
    s.map_values(|r: Reminder| r@)
}

/// Whether `x` can be stored in an `i64`.
pub open spec fn fits_i64(x: int) -> bool {
    i64::MIN <= x <= i64::MAX
}

/// Whether every id and sort order of `p` can be stored in an `i64`.
pub open spec fn representable(p: Seq<ReminderView>) -> bool {
    forall|i: int|
        0 <= i < p.len() ==> fits_i64((#[trigger] p[i]).id) && fits_i64(p[i].sort_order)
}

/// The predicate "belongs to `list`".
pub open spec fn in_list(list: ListType) -> spec_fn(ReminderView) -> bool {
    |r: ReminderView| r.list_type == list
}

/// The number of items of `p` that belong to `list`.
pub open spec fn count_list(p: Seq<ReminderView>, list: ListType) -> nat {
    p.filter(in_list(list)).len()
}

/// The index of the first item of `p` whose id is `id`.
pub open spec fn position(p: Seq<ReminderView>, id: int) -> Option<int>
    decreases p.len(),
{
    if p.len() == 0 {
        None
    } else {
        match position(p.drop_last(), id) {
            Some(i) => Some(i),
            None => if p.last().id == id {
                Some(p.len() - 1)
            } else {
                None
            },
        }
    }
}

/// The index of the item of `list` with the smallest sort order; among equals,
/// the first.
pub open spec fn first_min(p: Seq<ReminderView>, list: ListType) -> Option<int>
    decreases p.len(),
{
    if p.len() == 0 {
        None
    } else {
        let rest = first_min(p.drop_last(), list);
        if p.last().list_type != list {
            rest
        } else {
            match rest {
                Some(i) => if p.last().sort_order < p[i].sort_order {
                    Some(p.len() - 1)
                } else {
                    rest
                },
                None => Some(p.len() - 1),
            }
        }
    }
}

/// The index of the item of `list` with the largest sort order; among equals,
/// the last.
pub open spec fn last_max(p: Seq<ReminderView>, list: ListType) -> Option<int>
    decreases p.len(),
{
    if p.len() == 0 {
        None
    } else {
        let rest = last_max(p.drop_last(), list);
        if p.last().list_type != list {
            rest
        } else {
            match rest {
                Some(i) => if p[i].sort_order <= p.last().sort_order {
                    Some(p.len() - 1)
                } else {
                    rest
                },
                None => Some(p.len() - 1),
            }
        }
    }
}

/// What `position` finds: the first index with the id, or nothing when no
/// item has it.
pub proof fn lemma_position(p: Seq<ReminderView>, id: int)
    ensures
        match position(p, id) {
            Some(i) => 0 <= i < p.len() && p[i].id == id && forall|j: int|
                0 <= j < i ==> (#[trigger] p[j]).id != id,
            None => forall|j: int| 0 <= j < p.len() ==> (#[trigger] p[j]).id != id,
        },
    decreases p.len(),
{
    if p.len() > 0 {
        lemma_position(p.drop_last(), id);
        assert(forall|j: int| 0 <= j < p.len() - 1 ==> p.drop_last()[j] == p[j]);
    }
}

/// What `first_min` finds: an item of the list that no item of the list
/// precedes in sort order, and that comes before every other such item.
pub proof fn lemma_first_min(p: Seq<ReminderView>, list: ListType)
    ensures
        match first_min(p, list) {
            Some(i) => {
                &&& 0 <= i < p.len()
                &&& p[i].list_type == list
                &&& forall|j: int|
                    0 <= j < p.len() && (#[trigger] p[j]).list_type == list ==> p[i].sort_order
                        <= p[j].sort_order
                &&& forall|j: int|
                    0 <= j < i && (#[trigger] p[j]).list_type == list ==> p[i].sort_order
                        < p[j].sort_order
            },
            None => forall|j: int| 0 <= j < p.len() ==> (#[trigger] p[j]).list_type != list,
        },
    decreases p.len(),
{
    if p.len() > 0 {
        lemma_first_min(p.drop_last(), list);
        assert(forall|j: int| 0 <= j < p.len() - 1 ==> p.drop_last()[j] == p[j]);
    }
}

/// What `last_max` finds: an item of the list that no item of the list
/// follows in sort order, and that comes after every other such item.
pub proof fn lemma_last_max(p: Seq<ReminderView>, list: ListType)
    ensures
        match last_max(p, list) {
            Some(i) => {
                &&& 0 <= i < p.len()
                &&& p[i].list_type == list
                &&& forall|j: int|
                    0 <= j < p.len() && (#[trigger] p[j]).list_type == list ==> p[j].sort_order
                        <= p[i].sort_order
                &&& forall|j: int|
                    i < j < p.len() && (#[trigger] p[j]).list_type == list ==> p[j].sort_order
                        < p[i].sort_order
            },
            None => forall|j: int| 0 <= j < p.len() ==> (#[trigger] p[j]).list_type != list,
        },
    decreases p.len(),
{
    if p.len() > 0 {
        lemma_last_max(p.drop_last(), list);
        assert(forall|j: int| 0 <= j < p.len() - 1 ==> p.drop_last()[j] == p[j]);
    }
}

/// A prefix one longer is the shorter prefix with one more item.
pub proof fn lemma_take_step<A>(s: Seq<A>, i: int)
    requires
        0 <= i < s.len(),
    ensures
        s.take(i + 1).drop_last() == s.take(i),
        s.take(i + 1).last() == s[i],
        s.take(i + 1).len() == i + 1,
{
    assert(s.take(i + 1).drop_last() =~= s.take(i));
}

/// Filtering a prefix one longer keeps what the shorter prefix kept, and the
/// new item if it passes.
pub proof fn lemma_filter_take_step<A>(s: Seq<A>, pred: spec_fn(A) -> bool, i: int)
    requires
        0 <= i < s.len(),
    ensures
        s.take(i + 1).filter(pred) == if pred(s[i]) {
            s.take(i).filter(pred).push(s[i])
        } else {
            s.take(i).filter(pred)
        },
{
    reveal(Seq::filter);
    lemma_take_step(s, i);
}

/// Counts the items of `p` that belong to `list`.
pub fn count_in_list(p: &Vec<Reminder>, list: ListType) -> (n: usize)
    ensures
        n == count_list(views(p@), list),
{
    let ghost v = views(p@);
    let mut n: usize = 0;
    let mut i: usize = 0;
    proof {
        reveal(Seq::filter);
    }
    while i < p.len()
        invariant
            i <= p.len(),
            v == views(p@),
            n <= i,
            n == count_list(v.take(i as int), list),
        decreases p.len() - i,
    {
        proof {
            lemma_filter_take_step(v, in_list(list), i as int);
            v.take(i as int).lemma_filter_len(in_list(list));
        }
        if p[i].list_type == list {
            n += 1;
        }
        i += 1;
    }
    assert(v.take(p.len() as int) =~= v);
    n
}

/// Finds the first item of `p` whose id is `id`.
pub fn find_position(p: &Vec<Reminder>, id: i64) -> (r: Option<usize>)
    ensures
        match r {
            Some(i) => position(views(p@), id as int) == Some(i as int) && i < p.len(),
            None => position(views(p@), id as int) is None,
        },
{
    let ghost v = views(p@);
    let mut i: usize = 0;
    while i < p.len()
        invariant
            i <= p.len(),
            v == views(p@),
            position(v.take(i as int), id as int) is None,
        decreases p.len() - i,
    {
        proof {
            lemma_take_step(v, i as int);
        }
        if p[i].id == id {
            proof {
                lemma_position_prefix(v, id as int, i as int + 1);
            }
            return Some(i);
        }
        i += 1;
    }
    assert(v.take(p.len() as int) =~= v);
    None
}

/// Once a prefix holds the id, every longer prefix finds it at the same
/// place.
pub proof fn lemma_position_prefix(p: Seq<ReminderView>, id: int, n: int)
    requires
        0 <= n <= p.len(),
        position(p.take(n), id) is Some,
    ensures
        position(p, id) == position(p.take(n), id),
    decreases p.len() - n,
{
    if n < p.len() {
        lemma_take_step(p, n);
        lemma_position_prefix(p, id, n + 1);
    } else {
        assert(p.take(n) =~= p);
    }
}

/// Finds the item of `list` with the smallest sort order; among equals, the
/// first.
pub fn find_first_min(p: &Vec<Reminder>, list: ListType) -> (r: Option<usize>)
    ensures
        match r {
            Some(i) => first_min(views(p@), list) == Some(i as int) && i < p.len(),
            None => first_min(views(p@), list) is None,
        },
{
    let ghost v = views(p@);
    let mut best: Option<usize> = None;
    let mut i: usize = 0;
    while i < p.len()
        invariant
            i <= p.len(),
            v == views(p@),
            match best {
                Some(b) => first_min(v.take(i as int), list) == Some(b as int) && b < i,
                None => first_min(v.take(i as int), list) is None,
            },
        decreases p.len() - i,
    {
        proof {
            lemma_take_step(v, i as int);
        }
        if p[i].list_type == list {
            match best {
                Some(b) => {
                    if p[i].sort_order < p[b].sort_order {
                        best = Some(i);
                    }
                },
                None => {
                    best = Some(i);
                },
            }
        }
        i += 1;
    }
    assert(v.take(p.len() as int) =~= v);
    best
}

/// Finds the item of `list` with the largest sort order; among equals, the
/// last.
pub fn find_last_max(p: &Vec<Reminder>, list: ListType) -> (r: Option<usize>)
    ensures
        match r {
            Some(i) => last_max(views(p@), list) == Some(i as int) && i < p.len(),
            None => last_max(views(p@), list) is None,
        },
{
    let ghost v = views(p@);
    let mut best: Option<usize> = None;
    let mut i: usize = 0;
    while i < p.len()
        invariant
            i <= p.len(),
            v == views(p@),
            match best {
                Some(b) => last_max(v.take(i as int), list) == Some(b as int) && b < i,
                None => last_max(v.take(i as int), list) is None,
            },
        decreases p.len() - i,
    {
        proof {
            lemma_take_step(v, i as int);
        }
        if p[i].list_type == list {
            match best {
                Some(b) => {
                    if p[b].sort_order <= p[i].sort_order {
                        best = Some(i);
                    }
                },
                None => {
                    best = Some(i);
                },
            }
        }
        i += 1;
    }
    assert(v.take(p.len() as int) =~= v);
    best
}

/// `r` moved to `list` at sort order `order`.
pub open spec fn placed(r: ReminderView, list: ListType, order: int) -> ReminderView {
    ReminderView { list_type: list, sort_order: order, ..r }
}

/// The sort order that puts an item above every Backlog item of `p`: one less
/// than the smallest Backlog sort order, or 0 when the Backlog is empty.
pub open spec fn top_of_backlog(p: Seq<ReminderView>) -> int {
    match first_min(p, ListType::Backlog) {
        Some(i) => p[i].sort_order - 1,
        None => 0,
    }
}

/// The sort order that puts an item below every Actual item of `p`: one more
/// than the largest Actual sort order, or 0 when Actual is empty.
pub open spec fn bottom_of_actual(p: Seq<ReminderView>) -> int {
    match last_max(p, ListType::Actual) {
        Some(i) => p[i].sort_order + 1,
        None => 0,
    }
}

/// `p` after its least prioritized Actual item (the one with the largest sort
/// order) has been moved to the top of the Backlog. Unchanged when Actual is
/// empty.
pub open spec fn evicted(p: Seq<ReminderView>) -> Seq<ReminderView> {
    match last_max(p, ListType::Actual) {
        Some(i) => p.update(i, placed(p[i], ListType::Backlog, top_of_backlog(p))),
        None => p,
    }
}

/// `r` one place further down if it is an Actual item, else `r`.
pub open spec fn pushed_down(r: ReminderView) -> ReminderView {
    if r.list_type == ListType::Actual {
        ReminderView { sort_order: r.sort_order + 1, ..r }
    } else {
        r
    }
}

/// `p` after every Actual item has moved one place down.
pub open spec fn shifted(p: Seq<ReminderView>) -> Seq<ReminderView> {
    p.map_values(|r: ReminderView| pushed_down(r))
}

/// `p` with sort order 0 of Actual made free: if Actual is `full`, its least
/// prioritized item is evicted first; then every Actual item moves one place
/// down.
pub open spec fn with_room(p: Seq<ReminderView>, full: bool) -> Seq<ReminderView> {
    shifted(if full { evicted(p) } else { p })
}

/// `p` after the top Backlog item (the one with the smallest sort order) has
/// been moved to the bottom of Actual. Unchanged when Actual is at capacity,
/// when the Backlog is empty, or when no `i64` is left below the last Actual
/// item.
pub open spec fn promoted(p: Seq<ReminderView>) -> Seq<ReminderView> {
    if count_list(p, ListType::Actual) >= MAX_ACTUAL_TASKS {
        p
    } else {
        match first_min(p, ListType::Backlog) {
            Some(i) => if fits_i64(bottom_of_actual(p)) {
                p.update(i, placed(p[i], ListType::Actual, bottom_of_actual(p)))
            } else {
                p
            },
            None => p,
        }
    }
}

/// The views of stored items are representable.
pub proof fn lemma_views_representable(s: Seq<Reminder>)
    ensures
        representable(views(s)),
{
}

/// Moves item `i` of `p` to `list` at sort order `order`.
pub fn set_placement(p: &mut Vec<Reminder>, i: usize, list: ListType, order: i64)
    requires
        i < old(p).len(),
    ensures
        final(p).len() == old(p).len(),
        views(final(p)@) == views(old(p)@).update(
            i as int,
            placed(views(old(p)@)[i as int], list, order as int),
        ),
{
    p[i].list_type = list;
    p[i].sort_order = order;
    assert(views(p@) =~= views(old(p)@).update(
        i as int,
        placed(views(old(p)@)[i as int], list, order as int),
    ));
}

/// The sort order for a new top Backlog item, if an `i64` can hold it.
pub fn backlog_top(p: &Vec<Reminder>) -> (r: Option<i64>)
    ensures
        match r {
            Some(t) => t == top_of_backlog(views(p@)),
            None => !fits_i64(top_of_backlog(views(p@))),
        },
{
    match find_first_min(p, ListType::Backlog) {
        Some(k) => {
            if p[k].sort_order == i64::MIN {
                None
            } else {
                Some(p[k].sort_order - 1)
            }
        },
        None => Some(0),
    }
}

/// The sort order for a new bottom Actual item, if an `i64` can hold it.
pub fn actual_bottom(p: &Vec<Reminder>) -> (r: Option<i64>)
    ensures
        match r {
            Some(t) => t == bottom_of_actual(views(p@)),
            None => !fits_i64(bottom_of_actual(views(p@))),
        },
{
    match find_last_max(p, ListType::Actual) {
        Some(k) => {
            if p[k].sort_order == i64::MAX {
                None
            } else {
                Some(p[k].sort_order + 1)
            }
        },
        None => Some(0),
    }
}

/// Moves the least prioritized Actual item of `p` to the top of the Backlog.
/// Returns `false`, and leaves `p` as it is, when the new sort order would
/// not fit an `i64`.
pub fn evict_to_backlog(p: &mut Vec<Reminder>) -> (ok: bool)
    ensures
        ok <==> representable(evicted(views(old(p)@))),
        ok ==> views(final(p)@) == evicted(views(old(p)@)),
        !ok ==> final(p)@ == old(p)@,
{
    let ghost v = views(p@);
    proof {
        lemma_last_max(v, ListType::Actual);
        lemma_views_representable(p@);
    }
    match find_last_max(p, ListType::Actual) {
        Some(e) => {
            match backlog_top(p) {
                Some(top) => {
                    set_placement(p, e, ListType::Backlog, top);
                    proof {
                        lemma_views_representable(p@);
                    }
                    true
                },
                None => {
                    assert(!fits_i64(evicted(v)[e as int].sort_order));
                    false
                },
            }
        },
        None => true,
    }
}

/// Whether every Actual item of `p`, except the one at `skip`, can move one
/// place down.
pub open spec fn can_shift(p: Seq<ReminderView>, skip: Option<int>) -> bool {
    forall|j: int|
        0 <= j < p.len() && Some(j) != skip && (#[trigger] p[j]).list_type == ListType::Actual
            ==> p[j].sort_order < i64::MAX
}

/// Checks that every Actual item of `p`, except the one at `skip`, can move
/// one place down.
pub fn check_shift(p: &Vec<Reminder>, skip: Option<usize>) -> (ok: bool)
    ensures
        ok <==> can_shift(
            views(p@),
            match skip {
                Some(k) => Some(k as int),
                None => None,
            },
        ),
{
    let ghost v = views(p@);
    let ghost sk: Option<int> = match skip {
        Some(k) => Some(k as int),
        None => None,
    };
    let mut i: usize = 0;
    while i < p.len()
        invariant
            i <= p.len(),
            v == views(p@),
            sk == match skip {
                Some(k) => Some(k as int),
                None => None,
            },
            forall|j: int|
                0 <= j < i && Some(j) != sk && (#[trigger] v[j]).list_type == ListType::Actual
                    ==> v[j].sort_order < i64::MAX,
        decreases p.len() - i,
    {
        let skipped = match skip {
            Some(k) => k == i,
            None => false,
        };
        if !skipped && p[i].list_type == ListType::Actual && p[i].sort_order == i64::MAX {
            assert(v[i as int].list_type == ListType::Actual);
            return false;
        }
        i += 1;
    }
    true
}

/// Moves every Actual item of `p` one place down.
pub fn shift_actual_down(p: &mut Vec<Reminder>)
    requires
        can_shift(views(old(p)@), None),
    ensures
        views(final(p)@) == shifted(views(old(p)@)),
{
    let ghost v = views(p@);
    let mut i: usize = 0;
    while i < p.len()
        invariant
            i <= p.len(),
            p.len() == v.len(),
            can_shift(v, None),
            forall|j: int| 0 <= j < i ==> (#[trigger] views(p@)[j]) == pushed_down(v[j]),
            forall|j: int| i <= j < p.len() ==> (#[trigger] views(p@)[j]) == v[j],
        decreases p.len() - i,
    {
        let ghost before = views(p@);
        assert(before[i as int] == v[i as int]);
        if p[i].list_type == ListType::Actual {
            let next = p[i].sort_order + 1;
            set_placement(p, i, ListType::Actual, next);
        }
        assert(forall|j: int| 0 <= j < p.len() && j != i ==> views(p@)[j] == before[j]);
        i += 1;
    }
    assert(views(p@) =~= shifted(v));
}

/// Frees sort order 0 of Actual: evicts the least prioritized Actual item if
/// Actual is `full`, then moves every Actual item one place down. Returns
/// `false`, and leaves `p` as it is, when a new sort order would not fit an
/// `i64`.
pub fn make_room(p: &mut Vec<Reminder>, full: bool) -> (ok: bool)
    ensures
        ok <==> representable(with_room(views(old(p)@), full)),
        ok ==> views(final(p)@) == with_room(views(old(p)@), full),
        !ok ==> final(p)@ == old(p)@,
{
    let ghost v = views(p@);
    proof {
        lemma_last_max(v, ListType::Actual);
        lemma_views_representable(p@);
    }
    let e = if full {
        find_last_max(p, ListType::Actual)
    } else {
        None
    };
    let ghost w = if full { evicted(v) } else { v };
    let top = match e {
        Some(_) => match backlog_top(p) {
            Some(t) => t,
            None => {
                assert(!fits_i64(shifted(w)[e.unwrap() as int].sort_order));
                return false;
            },
        },
        None => 0,
    };
    if !check_shift(p, e) {
        proof {
            let ghost sk: Option<int> = match e {
                Some(k) => Some(k as int),
                None => None,
            };
            let j = choose|j: int|
                0 <= j < v.len() && Some(j) != sk && (#[trigger] v[j]).list_type
                    == ListType::Actual && !(v[j].sort_order < i64::MAX);
            assert(w[j] == v[j]);
            assert(!fits_i64(shifted(w)[j].sort_order));
        }
        return false;
    }
    match e {
        Some(k) => {
            set_placement(p, k, ListType::Backlog, top);
        },
        None => {},
    }
    assert(views(p@) == w);
    assert(can_shift(w, None)) by {
        assert forall|j: int|
            0 <= j < w.len() && (#[trigger] w[j]).list_type
                == ListType::Actual implies w[j].sort_order < i64::MAX by {
            assert(v[j].list_type == ListType::Actual);
        }
    }
    shift_actual_down(p);
    proof {
        lemma_views_representable(p@);
    }
    true
}

/// Moves the top Backlog item of `p` to the bottom of Actual, if Actual has
/// room, the Backlog is not empty, and an `i64` is left below the last Actual
/// item.
pub fn promote_if_room(p: &mut Vec<Reminder>)
    ensures
        views(final(p)@) == promoted(views(old(p)@)),
{
    let ghost v = views(p@);
    proof {
        lemma_first_min(v, ListType::Backlog);
    }
    if count_in_list(p, ListType::Actual) >= MAX_ACTUAL_TASKS {
        return ;
    }
    match find_first_min(p, ListType::Backlog) {
        Some(k) => {
            match actual_bottom(p) {
                Some(bottom) => {
                    set_placement(p, k, ListType::Actual, bottom);
                },
                None => {},
            }
        },
        None => {},
    }
}

/// The predicate "has an id other than `id`".
pub open spec fn not_id(id: int) -> spec_fn(ReminderView) -> bool {
    |r: ReminderView| r.id != id
}

/// Removes every item with the id from `p`, keeping the others in order.
pub fn remove_with_id(p: &mut Vec<Reminder>, id: i64)
    ensures
        views(final(p)@) == views(old(p)@).filter(not_id(id as int)),
{
    let ghost v = views(p@);
    let ghost mut k: int = 0;
    let mut i: usize = 0;
    proof {
        reveal(Seq::filter);
        assert(v.skip(0) =~= v);
        assert(views(p@) =~= v.take(0).filter(not_id(id as int)) + v.skip(0));
    }
    while i < p.len()
        invariant
            0 <= k <= v.len(),
            i <= p.len(),
            p.len() - i == v.len() - k,
            i == v.take(k).filter(not_id(id as int)).len(),
            views(p@) == v.take(k).filter(not_id(id as int)) + v.skip(k),
        decreases p.len() - i,
    {
        proof {
            lemma_filter_take_step(v, not_id(id as int), k);
            assert(views(p@)[i as int] == v.skip(k)[0]);
        }
        let ghost before = views(p@);
        let ghost kept = v.take(k).filter(not_id(id as int));
        if p[i].id == id {
            let _gone = p.remove(i);
            assert(views(p@) =~= before.remove(i as int));
            assert forall|j: int| 0 <= j < views(p@).len() implies views(p@)[j] == (kept + v.skip(
                k + 1,
            ))[j] by {
                if j < i {
                    assert(before[j] == kept[j]);
                } else {
                    assert(before[j + 1] == v.skip(k)[j + 1 - i]);
                }
            }
            assert(views(p@) =~= v.take(k + 1).filter(not_id(id as int)) + v.skip(k + 1));
        } else {
            assert(views(p@) =~= v.take(k + 1).filter(not_id(id as int)) + v.skip(k + 1));
            i += 1;
        }
        proof {
            k = k + 1;
        }
    }
    assert(v.take(k) =~= v);
    assert(views(p@) =~= v.filter(not_id(id as int)));
}

} // verus!
