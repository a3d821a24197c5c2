//! The store of pending and completed reminders, and the reconciliation of
//! two copies of it.
//!
//! Two copies of the store, a local one and one from the cloud, are merged by
//! id. A pending item that both have is taken from the cloud only where the
//! cloud's version is strictly later; a completed item is taken from the
//! local copy where both have it; and an id that one copy has completed while
//! the other still has it pending ends up completed only.

use vstd::prelude::*;
use std::collections::HashMap;
use crate::clock::{parse_rfc3339, rfc3339_instant, Instant};
use crate::reminder::{Reminder, ReminderView};
use crate::storage::admission::{find_position, lemma_position, lemma_take_step, position, views};

verus! {

/// The mathematical value of a [`ReminderStore`].
pub struct StoreView {
    pub pending: Seq<ReminderView>,
    pub completed: Seq<ReminderView>,
}

/// The pending and the completed reminders.
#[derive(Debug)]
pub struct ReminderStore {
    pub pending: Vec<Reminder>,
    pub completed: Vec<Reminder>,
}

impl View for ReminderStore {
    type V = StoreView;

    open spec fn view(&self) -> StoreView {
        StoreView { pending: views(self.pending@), completed: views(self.completed@) }
    }
}

/// Copies a list of reminders.
pub fn clone_reminders(list: &Vec<Reminder>) -> (r: Vec<Reminder>)
    ensures
        views(r@) == views(list@),
{
    let mut out: Vec<Reminder> = Vec::new();
    let mut i: usize = 0;
    while i < list.len()
        invariant
            i <= list.len(),
            out.len() == i,
            forall|j: int| 0 <= j < i ==> (#[trigger] out@[j])@ == list@[j]@,
        decreases list.len() - i,
    {
        out.push(list[i].clone());
        i += 1;
    }
    assert(views(out@) =~= views(list@));
    out
}

impl Clone for ReminderStore {
    fn clone(&self) -> (r: Self)
        ensures
            r@ == self@,
    {
        ReminderStore {
            pending: clone_reminders(&self.pending),
            completed: clone_reminders(&self.completed),
        }
    }
}

impl Default for ReminderStore {
    fn default() -> (r: Self)
        ensures
            r@.pending.len() == 0,
            r@.completed.len() == 0,
    {
        ReminderStore { pending: Vec::new(), completed: Vec::new() }
    }
}

/// Whether no two items of `p` share an id.
pub open spec fn unique_ids(p: Seq<ReminderView>) -> bool {
    forall|i: int, j: int| 0 <= i < j < p.len() ==> (#[trigger] p[i]).id != (#[trigger] p[j]).id
}

/// Whether some item of `p` has the id.
pub open spec fn has_id(p: Seq<ReminderView>, id: int) -> bool {
    position(p, id) is Some
}

/// Whether `p` lists exactly the values of `m`, each once, every value under
/// its own id.
pub open spec fn lists(p: Seq<ReminderView>, m: Map<int, ReminderView>) -> bool {
    &&& unique_ids(p)
    &&& forall|i: int|
        0 <= i < p.len() ==> m.contains_key((#[trigger] p[i]).id) && m[p[i].id] == p[i]
    &&& forall|k: int| #[trigger] m.contains_key(k) ==> has_id(p, k)
}

/// The items of `p` by id. Where several items share an id, the last one
/// counts.
pub open spec fn indexed(p: Seq<ReminderView>) -> Map<int, ReminderView>
    decreases p.len(),
{
    if p.len() == 0 {
        Map::empty()
    } else {
        indexed(p.drop_last()).insert(p.last().id, p.last())
    }
}

/// The time by which versions of an item are compared: when it was
/// completed, or else when it was created.
pub open spec fn version_time(r: ReminderView) -> Seq<char> {
    match r.completed_at {
        Some(t) => t,
        None => r.created_at,
    }
}

/// Whether the second of two readings is a time strictly later than the
/// first. Where either text could not be read, it is not.
pub open spec fn strictly_later(first: Option<Instant>, second: Option<Instant>) -> bool {
    match (first, second) {
        (Some(a), Some(b)) => b.later_than(a),
        _ => false,
    }
}

/// Whether the cloud's version `theirs` replaces the version `ours` of the
/// same pending item: only where both version times can be read and the
/// cloud's is strictly later.
pub open spec fn supersedes(theirs: ReminderView, ours: ReminderView) -> bool {
    strictly_later(rfc3339_instant(version_time(ours)), rfc3339_instant(version_time(theirs)))
}

/// `m` after the pending items of the cloud, taken in order, have been
/// absorbed: an item with a new id is added, and an item with a known id
/// replaces the known version only where it supersedes it.
pub open spec fn absorbed_newer(m: Map<int, ReminderView>, p: Seq<ReminderView>) -> Map<
    int,
    ReminderView,
>
    decreases p.len(),
{
    if p.len() == 0 {
        m
    } else {
        let before = absorbed_newer(m, p.drop_last());
        let r = p.last();
        if before.contains_key(r.id) && !supersedes(r, before[r.id]) {
            before
        } else {
            before.insert(r.id, r)
        }
    }
}

/// `m` after the completed items of the cloud, taken in order, have been
/// absorbed: only an item with a new id is added.
pub open spec fn absorbed_missing(m: Map<int, ReminderView>, p: Seq<ReminderView>) -> Map<
    int,
    ReminderView,
>
    decreases p.len(),
{
    if p.len() == 0 {
        m
    } else {
        let before = absorbed_missing(m, p.drop_last());
        let r = p.last();
        if before.contains_key(r.id) {
            before
        } else {
            before.insert(r.id, r)
        }
    }
}

/// Whether the two copies disagree on whether `id` is done: one has it
/// completed while the other has it pending.
pub open spec fn conflicting(local: StoreView, cloud: StoreView, id: int) -> bool {
    ||| has_id(local.completed, id) && has_id(cloud.pending, id)
    ||| has_id(cloud.completed, id) && has_id(local.pending, id)
}

/// The pending items of the merged store, by id: the local ones, then the
/// cloud's absorbed into them, without the ids on which the copies disagree.
pub open spec fn merged_pending(local: StoreView, cloud: StoreView) -> Map<int, ReminderView> {
    absorbed_newer(indexed(local.pending), cloud.pending).remove_keys(
        Set::new(|id: int| conflicting(local, cloud, id)),
    )
}

/// The completed items of the merged store, by id: the local ones, then the
/// cloud's that the local copy lacks.
pub open spec fn merged_completed(local: StoreView, cloud: StoreView) -> Map<int, ReminderView> {
    absorbed_missing(indexed(local.completed), cloud.completed)
}

/// Adding an item with a new id to a listing lists the map with that item.
pub proof fn lemma_lists_push(p: Seq<ReminderView>, m: Map<int, ReminderView>, x: ReminderView)
    requires
        lists(p, m),
        !m.contains_key(x.id),
    ensures
        lists(p.push(x), m.insert(x.id, x)),
{
    let q = p.push(x);
    let n = m.insert(x.id, x);
    assert forall|k: int| #[trigger] n.contains_key(k) implies has_id(q, k) by {
        lemma_position(q, k);
        if k == x.id {
            assert(q[p.len() as int].id == k);
        } else {
            lemma_position(p, k);
            let i = position(p, k)->0;
            assert(q[i].id == k);
        }
    }
    assert forall|i: int| 0 <= i < q.len() implies n.contains_key((#[trigger] q[i]).id) && n[q[i].id]
        == q[i] by {
        if i < p.len() {
            assert(q[i] == p[i]);
        }
    }
    assert forall|i: int, j: int| 0 <= i < j < q.len() implies (#[trigger] q[i]).id != (
    #[trigger] q[j]).id by {
        assert(q[i] == p[i]);
        if j < p.len() {
            assert(q[j] == p[j]);
        }
    }
}

/// Taking an item out of a listing lists the map without its id.
pub proof fn lemma_lists_remove(p: Seq<ReminderView>, m: Map<int, ReminderView>, i: int)
    requires
        lists(p, m),
        0 <= i < p.len(),
    ensures
        lists(p.remove(i), m.remove(p[i].id)),
{
    let q = p.remove(i);
    let n = m.remove(p[i].id);
    assert forall|k: int| #[trigger] n.contains_key(k) implies has_id(q, k) by {
        lemma_position(q, k);
        lemma_position(p, k);
        let j = position(p, k)->0;
        if j < i {
            assert(q[j].id == k);
        } else {
            assert(q[j - 1].id == k);
        }
    }
    assert forall|j: int| 0 <= j < q.len() implies n.contains_key((#[trigger] q[j]).id) && n[q[j].id]
        == q[j] by {
        if j < i {
            assert(q[j] == p[j]);
        } else {
            assert(q[j] == p[j + 1]);
        }
    }
    assert forall|a: int, b: int| 0 <= a < b < q.len() implies (#[trigger] q[a]).id != (
    #[trigger] q[b]).id by {
        assert(q[a] == p[if a < i { a } else { a + 1 }]);
        assert(q[b] == p[if b < i { b } else { b + 1 }]);
    }
}

/// Whether the second of two readings is a time strictly later than the
/// first.
pub fn is_strictly_later(first: Option<Instant>, second: Option<Instant>) -> (r: bool)
    ensures
        r == strictly_later(first, second),
{
    match (first, second) {
        (Some(a), Some(b)) => b.is_later_than(&a),
        _ => false,
    }
}

/// The text of the time by which versions of `r` are compared.
pub fn version_stamp(r: &Reminder) -> (t: &str)
    ensures
        t@ == version_time(r@),
{
    match &r.completed_at {
        Some(t) => t.as_str(),
        None => r.created_at.as_str(),
    }
}

/// Decides whether the cloud's version `theirs` replaces the version `ours`.
pub fn version_supersedes(theirs: &Reminder, ours: &Reminder) -> (r: bool)
    ensures
        r == supersedes(theirs@, ours@),
{
    let first = parse_rfc3339(version_stamp(ours));
    let second = parse_rfc3339(version_stamp(theirs));
    is_strictly_later(first, second)
}

/// Whether `merged` is a merge of `local` and `cloud`: its pending list lists
/// [`merged_pending`] and its completed list lists [`merged_completed`]. The
/// order of the items within each list is left open.
pub open spec fn is_merge_of(merged: StoreView, local: StoreView, cloud: StoreView) -> bool {
    &&& lists(merged.pending, merged_pending(local, cloud))
    &&& lists(merged.completed, merged_completed(local, cloud))
}

/// The ids of the index of a list are the ids of the list, and every value
/// stands under its own id.
pub proof fn lemma_indexed_keys(p: Seq<ReminderView>)
    ensures
        forall|id: int| #[trigger] indexed(p).contains_key(id) <==> has_id(p, id),
        forall|id: int| #[trigger] indexed(p).contains_key(id) ==> indexed(p)[id].id == id,
    decreases p.len(),
{
    if p.len() > 0 {
        lemma_indexed_keys(p.drop_last());
        assert forall|id: int| #[trigger] indexed(p).contains_key(id) <==> has_id(p, id) by {
            lemma_position(p, id);
            lemma_position(p.drop_last(), id);
            if has_id(p.drop_last(), id) {
                let i = position(p.drop_last(), id)->0;
                assert(p[i] == p.drop_last()[i]);
            }
            if has_id(p, id) && p.last().id != id {
                let i = position(p, id)->0;
                assert(p.drop_last()[i] == p[i]);
            }
        }
    } else {
        assert forall|id: int| #[trigger] indexed(p).contains_key(id) <==> has_id(p, id) by {
            lemma_position(p, id);
        }
    }
}

/// The ids after absorbing pending items are the ids before and the ids of
/// the items.
pub proof fn lemma_absorbed_newer_keys(m: Map<int, ReminderView>, p: Seq<ReminderView>)
    ensures
        forall|id: int| #[trigger]
            absorbed_newer(m, p).contains_key(id) <==> m.contains_key(id) || has_id(p, id),
    decreases p.len(),
{
    if p.len() > 0 {
        lemma_absorbed_newer_keys(m, p.drop_last());
        assert forall|id: int| #[trigger]
            absorbed_newer(m, p).contains_key(id) <==> m.contains_key(id) || has_id(p, id) by {
            let before = absorbed_newer(m, p.drop_last());
            assert(before.contains_key(id) <==> m.contains_key(id) || has_id(p.drop_last(), id));
            assert(before.contains_key(p.last().id) <==> m.contains_key(p.last().id) || has_id(
                p.drop_last(),
                p.last().id,
            ));
            lemma_position(p, id);
            lemma_position(p.drop_last(), id);
            if has_id(p.drop_last(), id) {
                let i = position(p.drop_last(), id)->0;
                assert(p[i] == p.drop_last()[i]);
            }
            if has_id(p, id) && p.last().id != id {
                let i = position(p, id)->0;
                assert(p.drop_last()[i] == p[i]);
            }
        }
    } else {
        assert(absorbed_newer(m, p) == m);
        assert forall|id: int| #[trigger]
            absorbed_newer(m, p).contains_key(id) <==> m.contains_key(id) || has_id(p, id) by {
            lemma_position(p, id);
        }
    }
}

/// The ids after absorbing completed items are the ids before and the ids of
/// the items.
pub proof fn lemma_absorbed_missing_keys(m: Map<int, ReminderView>, p: Seq<ReminderView>)
    ensures
        forall|id: int| #[trigger]
            absorbed_missing(m, p).contains_key(id) <==> m.contains_key(id) || has_id(p, id),
    decreases p.len(),
{
    if p.len() > 0 {
        lemma_absorbed_missing_keys(m, p.drop_last());
        assert forall|id: int| #[trigger]
            absorbed_missing(m, p).contains_key(id) <==> m.contains_key(id) || has_id(p, id) by {
            let before = absorbed_missing(m, p.drop_last());
            assert(before.contains_key(id) <==> m.contains_key(id) || has_id(p.drop_last(), id));
            assert(before.contains_key(p.last().id) <==> m.contains_key(p.last().id) || has_id(
                p.drop_last(),
                p.last().id,
            ));
            lemma_position(p, id);
            lemma_position(p.drop_last(), id);
            if has_id(p.drop_last(), id) {
                let i = position(p.drop_last(), id)->0;
                assert(p[i] == p.drop_last()[i]);
            }
            if has_id(p, id) && p.last().id != id {
                let i = position(p, id)->0;
                assert(p.drop_last()[i] == p[i]);
            }
        }
    } else {
        assert(absorbed_missing(m, p) == m);
        assert forall|id: int| #[trigger]
            absorbed_missing(m, p).contains_key(id) <==> m.contains_key(id) || has_id(p, id) by {
            lemma_position(p, id);
        }
    }
}

/// What a hash map of reminders stands for: its values by id.
pub open spec fn lifted(m: Map<i64, Reminder>) -> Map<int, ReminderView> {
    Map::new(
        |k: int| i64::MIN <= k <= i64::MAX && m.contains_key(k as i64),
        |k: int| m[k as i64]@,
    )
}

/// Whether every value of `m` stands under its own id.
pub open spec fn keyed_by_id(m: Map<int, ReminderView>) -> bool {
    forall|k: int| #[trigger] m.contains_key(k) ==> m[k].id == k
}

/// Whether `part` holds nothing that `whole` does not hold.
pub open spec fn within(part: Map<int, ReminderView>, whole: Map<int, ReminderView>) -> bool {
    forall|k: int| #[trigger] part.contains_key(k) ==> whole.contains_key(k) && whole[k] == part[k]
}

/// Absorbing keeps every value under its own id.
pub proof fn lemma_absorbed_keyed(m: Map<int, ReminderView>, p: Seq<ReminderView>)
    requires
        keyed_by_id(m),
    ensures
        keyed_by_id(absorbed_newer(m, p)),
        keyed_by_id(absorbed_missing(m, p)),
    decreases p.len(),
{
    if p.len() > 0 {
        lemma_absorbed_keyed(m, p.drop_last());
    }
}

/// Moves the values that `m` holds for the ids of `list` to the end of
/// `out`, in the order of `list`.
fn take_listed(
    m: &mut HashMap<i64, Reminder>,
    list: &Vec<Reminder>,
    out: &mut Vec<Reminder>,
    Ghost(whole): Ghost<Map<int, ReminderView>>,
)
    requires
        keyed_by_id(whole),
        within(lifted(old(m)@), whole),
        lists(views(old(out)@), whole.remove_keys(lifted(old(m)@).dom())),
    ensures
        within(lifted(final(m)@), whole),
        lists(views(final(out)@), whole.remove_keys(lifted(final(m)@).dom())),
        forall|k: int| #[trigger]
            lifted(final(m)@).contains_key(k) <==> lifted(old(m)@).contains_key(k) && !has_id(
                views(list@),
                k,
            ),
{
    broadcast use vstd::std_specs::hash::group_hash_axioms;

    let ghost v = views(list@);
    let ghost start = lifted(m@);
    let mut i: usize = 0;
    proof {
        assert forall|k: int| !has_id(v.take(0), k) by {
            lemma_position(v.take(0), k);
        }
    }
    while i < list.len()
        invariant
            i <= list.len(),
            v == views(list@),
            keyed_by_id(whole),
            within(lifted(m@), whole),
            lists(views(out@), whole.remove_keys(lifted(m@).dom())),
            forall|k: int| #[trigger]
                lifted(m@).contains_key(k) <==> start.contains_key(k) && !has_id(
                    v.take(i as int),
                    k,
                ),
        decreases list.len() - i,
    {
        let id = list[i].id;
        let ghost before = m@;
        let ghost listed = views(out@);
        let ghost done = whole.remove_keys(lifted(before).dom());
        proof {
            lemma_take_step(v, i as int);
            assert forall|k: int| has_id(v.take(i as int + 1), k) <==> has_id(v.take(i as int), k)
                || k == id by {
                lemma_position(v.take(i as int + 1), k);
                lemma_position(v.take(i as int), k);
                if has_id(v.take(i as int), k) {
                    let j = position(v.take(i as int), k)->0;
                    assert(v.take(i as int + 1)[j].id == k);
                }
                if k == id {
                    assert(v.take(i as int + 1)[i as int].id == k);
                }
                if has_id(v.take(i as int + 1), k) && k != id {
                    let j = position(v.take(i as int + 1), k)->0;
                    assert(v.take(i as int)[j].id == k);
                }
            }
        }
        match m.remove(&id) {
            Some(r) => {
                assert(lifted(before).contains_key(id as int));
                assert(r@ == whole[id as int]);
                out.push(r);
                proof {
                    assert(views(out@) =~= listed.push(r@));
                    lemma_lists_push(listed, done, r@);
                    assert(lifted(m@) =~= lifted(before).remove(id as int));
                    assert(whole.remove_keys(lifted(m@).dom()) =~= done.insert(id as int, r@));
                }
            },
            None => {
                assert(lifted(m@) =~= lifted(before));
            },
        }
        i += 1;
    }
    assert(v.take(list.len() as int) =~= v);
}

/// Lists the values of `m`, each once: those for the ids of `first` in the
/// order of `first`, then those for the ids of `second`.
fn listing(m: HashMap<i64, Reminder>, first: &Vec<Reminder>, second: &Vec<Reminder>) -> (out: Vec<
    Reminder,
>)
    requires
        keyed_by_id(lifted(m@)),
        forall|k: int| #[trigger]
            lifted(m@).contains_key(k) ==> has_id(views(first@), k) || has_id(views(second@), k),
    ensures
        lists(views(out@), lifted(m@)),
{
    let ghost whole = lifted(m@);
    let mut m = m;
    let mut out: Vec<Reminder> = Vec::new();
    proof {
        assert(whole.remove_keys(whole.dom()) =~= Map::<int, ReminderView>::empty());
        assert forall|k: int| !has_id(views(out@), k) by {
            lemma_position(views(out@), k);
        }
    }
    take_listed(&mut m, first, &mut out, Ghost(whole));
    take_listed(&mut m, second, &mut out, Ghost(whole));
    proof {
        assert(lifted(m@).dom() =~= Set::<int>::empty());
        assert(whole.remove_keys(lifted(m@).dom()) =~= whole);
    }
    out
}

/// Merges the local and the cloud copy of the store. The result holds every
/// id of the merged maps once.
pub fn merge_stores(local: &ReminderStore, cloud: &ReminderStore) -> (merged: ReminderStore)
    ensures
        is_merge_of(merged@, local@, cloud@),
{
    broadcast use vstd::std_specs::hash::group_hash_axioms;

    let ghost lp = local@.pending;
    let ghost cp = cloud@.pending;
    let ghost lc = local@.completed;
    let ghost cc = cloud@.completed;

    // The pending items by id: the local ones, then the cloud's.
    let mut pending_map: HashMap<i64, Reminder> = HashMap::new();
    let mut k: usize = 0;
    assert(lifted(pending_map@) =~= indexed(lp.take(0)));
    while k < local.pending.len()
        invariant
            k <= local.pending.len(),
            lp == views(local.pending@),
            lifted(pending_map@) == indexed(lp.take(k as int)),
        decreases local.pending.len() - k,
    {
        proof {
            lemma_take_step(lp, k as int);
        }
        let ghost before = pending_map@;
        pending_map.insert(local.pending[k].id, local.pending[k].clone());
        assert(lifted(pending_map@) =~= lifted(before).insert(lp[k as int].id, lp[k as int]));
        k += 1;
    }
    assert(lp.take(local.pending.len() as int) =~= lp);
    k = 0;
    while k < cloud.pending.len()
        invariant
            k <= cloud.pending.len(),
            cp == views(cloud.pending@),
            lifted(pending_map@) == absorbed_newer(indexed(lp), cp.take(k as int)),
        decreases cloud.pending.len() - k,
    {
        proof {
            lemma_take_step(cp, k as int);
        }
        let ghost before = pending_map@;
        let r = &cloud.pending[k];
        let replace = match pending_map.get(&r.id) {
            Some(ours) => version_supersedes(r, ours),
            None => true,
        };
        if replace {
            pending_map.insert(r.id, r.clone());
            assert(lifted(pending_map@) =~= lifted(before).insert(cp[k as int].id, cp[k as int]));
        }
        k += 1;
    }
    assert(cp.take(cloud.pending.len() as int) =~= cp);
    let ghost all = absorbed_newer(indexed(lp), cp);

    // The completed items by id: the local ones, then the cloud's that are new.
    let mut completed_map: HashMap<i64, Reminder> = HashMap::new();
    k = 0;
    assert(lifted(completed_map@) =~= indexed(lc.take(0)));
    while k < local.completed.len()
        invariant
            k <= local.completed.len(),
            lc == views(local.completed@),
            lifted(completed_map@) == indexed(lc.take(k as int)),
        decreases local.completed.len() - k,
    {
        proof {
            lemma_take_step(lc, k as int);
        }
        let ghost before = completed_map@;
        completed_map.insert(local.completed[k].id, local.completed[k].clone());
        assert(lifted(completed_map@) =~= lifted(before).insert(lc[k as int].id, lc[k as int]));
        k += 1;
    }
    assert(lc.take(local.completed.len() as int) =~= lc);
    k = 0;
    while k < cloud.completed.len()
        invariant
            k <= cloud.completed.len(),
            cc == views(cloud.completed@),
            lifted(completed_map@) == absorbed_missing(indexed(lc), cc.take(k as int)),
        decreases cloud.completed.len() - k,
    {
        proof {
            lemma_take_step(cc, k as int);
        }
        let ghost before = completed_map@;
        let r = &cloud.completed[k];
        if !completed_map.contains_key(&r.id) {
            completed_map.insert(r.id, r.clone());
            assert(lifted(completed_map@) =~= lifted(before).insert(cc[k as int].id, cc[k as int]));
        }
        k += 1;
    }
    assert(cc.take(cloud.completed.len() as int) =~= cc);

    // An id completed in one copy and pending in the other stays completed only.
    k = 0;
    while k < cloud.completed.len()
        invariant
            k <= cloud.completed.len(),
            cc == views(cloud.completed@),
            lp == views(local.pending@),
            lifted(pending_map@) == all.remove_keys(
                Set::new(
                    |id: int|
                        has_id(lp, id) && exists|j: int| 0 <= j < k && (#[trigger] cc[j]).id == id,
                ),
            ),
        decreases cloud.completed.len() - k,
    {
        let id = cloud.completed[k].id;
        let ghost before = Set::new(
            |id: int| has_id(lp, id) && exists|j: int| 0 <= j < k && (#[trigger] cc[j]).id == id,
        );
        let ghost after = Set::new(
            |id: int|
                has_id(lp, id) && exists|j: int| 0 <= j < k + 1 && (#[trigger] cc[j]).id == id,
        );
        let ghost held = pending_map@;
        if find_position(&local.pending, id).is_some() {
            assert(cc[k as int].id == id);
            let _gone = pending_map.remove(&id);
            assert(lifted(pending_map@) =~= lifted(held).remove(id as int));
            assert(all.remove_keys(before).remove(id as int) =~= all.remove_keys(after));
        } else {
            assert(all.remove_keys(before) =~= all.remove_keys(after));
        }
        k += 1;
    }
    let ghost first = Set::new(
        |id: int| has_id(lp, id) && exists|j: int| 0 <= j < cc.len() && (#[trigger] cc[j]).id == id,
    );
    k = 0;
    while k < local.completed.len()
        invariant
            k <= local.completed.len(),
            lc == views(local.completed@),
            cp == views(cloud.pending@),
            lifted(pending_map@) == all.remove_keys(first).remove_keys(
                Set::new(
                    |id: int|
                        has_id(cp, id) && exists|j: int| 0 <= j < k && (#[trigger] lc[j]).id == id,
                ),
            ),
        decreases local.completed.len() - k,
    {
        let id = local.completed[k].id;
        let ghost base = all.remove_keys(first);
        let ghost before = Set::new(
            |id: int| has_id(cp, id) && exists|j: int| 0 <= j < k && (#[trigger] lc[j]).id == id,
        );
        let ghost after = Set::new(
            |id: int|
                has_id(cp, id) && exists|j: int| 0 <= j < k + 1 && (#[trigger] lc[j]).id == id,
        );
        let ghost held = pending_map@;
        if find_position(&cloud.pending, id).is_some() {
            assert(lc[k as int].id == id);
            let _gone = pending_map.remove(&id);
            assert(lifted(pending_map@) =~= lifted(held).remove(id as int));
            assert(base.remove_keys(before).remove(id as int) =~= base.remove_keys(after));
        } else {
            assert(base.remove_keys(before) =~= base.remove_keys(after));
        }
        k += 1;
    }
    proof {
        let second = Set::new(
            |id: int|
                has_id(cp, id) && exists|j: int| 0 <= j < lc.len() && (#[trigger] lc[j]).id == id,
        );
        assert forall|id: int| conflicting(local@, cloud@, id) <==> (first.contains(id)
            || second.contains(id)) by {
            lemma_position(lc, id);
            lemma_position(cc, id);
        }
        assert(all.remove_keys(first).remove_keys(second) =~= merged_pending(local@, cloud@));
        lemma_indexed_keys(lp);
        lemma_indexed_keys(lc);
        lemma_absorbed_newer_keys(indexed(lp), cp);
        lemma_absorbed_missing_keys(indexed(lc), cc);
        lemma_absorbed_keyed(indexed(lp), cp);
        lemma_absorbed_keyed(indexed(lc), cc);
    }
    let pending = listing(pending_map, &local.pending, &cloud.pending);
    let completed = listing(completed_map, &local.completed, &cloud.completed);
    ReminderStore { pending, completed }
}


} // verus!
