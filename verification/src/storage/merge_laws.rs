//! What holds of every merge.

use vstd::prelude::*;
use crate::reminder::ReminderView;
use crate::storage::admission::{lemma_position, lemma_take_step, position};
use crate::storage::merge::{
    absorbed_missing, absorbed_newer, conflicting, has_id, indexed, is_merge_of,
    lemma_absorbed_missing_keys, lemma_absorbed_newer_keys, lemma_indexed_keys,
    lemma_lists_push, lemma_lists_remove, lists, merged_completed, merged_pending, unique_ids,
    StoreView,
};

verus! {

/// Whether the store is valid: every id occurs once in the whole store,
/// pending and completed taken together.
pub open spec fn valid_store(s: StoreView) -> bool {
    unique_ids(s.pending + s.completed)
}

/// Whether no id of `a` is an id of `b`.
pub open spec fn disjoint_ids(a: StoreView, b: StoreView) -> bool {
    forall|id: int|
        !((has_id(a.pending, id) || has_id(a.completed, id)) && (has_id(b.pending, id) || has_id(
            b.completed,
            id,
        )))
}

/// An id is in a list exactly when some item has it.
pub proof fn lemma_has_id(p: Seq<ReminderView>, id: int)
    ensures
        has_id(p, id) <==> exists|i: int| 0 <= i < p.len() && (#[trigger] p[i]).id == id,
{
    lemma_position(p, id);
}

/// A list without repeated ids lists its own index.
pub proof fn lemma_indexed_lists(p: Seq<ReminderView>)
    requires
        unique_ids(p),
    ensures
        lists(p, indexed(p)),
    decreases p.len(),
{
    lemma_indexed_keys(p);
    if p.len() > 0 {
        let q = p.drop_last();
        assert(unique_ids(q)) by {
            assert forall|i: int, j: int| 0 <= i < j < q.len() implies (#[trigger] q[i]).id != (
            #[trigger] q[j]).id by {
                assert(q[i] == p[i] && q[j] == p[j]);
            }
        }
        lemma_indexed_lists(q);
        lemma_indexed_keys(q);
        assert(!indexed(q).contains_key(p.last().id)) by {
            lemma_position(q, p.last().id);
            if has_id(q, p.last().id) {
                let i = position(q, p.last().id)->0;
                assert(q[i] == p[i]);
                assert(p[i].id != p[p.len() - 1].id);
            }
        }
        lemma_lists_push(q, indexed(q), p.last());
        assert(q.push(p.last()) =~= p);
    }
}

/// Completed wins: an id that one copy has completed while the other has it
/// pending is, in every merge of the two, completed and not pending.
pub proof fn lemma_completed_wins(merged: StoreView, local: StoreView, cloud: StoreView, id: int)
    requires
        is_merge_of(merged, local, cloud),
        conflicting(local, cloud, id),
    ensures
        has_id(merged.completed, id),
        !has_id(merged.pending, id),
{
    lemma_indexed_keys(local.completed);
    lemma_absorbed_missing_keys(indexed(local.completed), cloud.completed);
    assert(merged_completed(local, cloud).contains_key(id));
    assert(!merged_pending(local, cloud).contains_key(id));
    lemma_position(merged.pending, id);
}

/// No id is lost: an id of either copy is, in every merge of the two, pending
/// or completed; and every id of a merge is an id of one of the copies.
pub proof fn lemma_merge_keeps_ids(merged: StoreView, local: StoreView, cloud: StoreView, id: int)
    requires
        is_merge_of(merged, local, cloud),
    ensures
        has_id(merged.pending, id) || has_id(merged.completed, id) <==> has_id(local.pending, id)
            || has_id(local.completed, id) || has_id(cloud.pending, id) || has_id(
            cloud.completed,
            id,
        ),
        has_id(merged.completed, id) <==> has_id(local.completed, id) || has_id(
            cloud.completed,
            id,
        ),
        has_id(merged.pending, id) <==> (has_id(local.pending, id) || has_id(cloud.pending, id))
            && !conflicting(local, cloud, id),
{
    lemma_indexed_keys(local.completed);
    lemma_indexed_keys(local.pending);
    lemma_absorbed_missing_keys(indexed(local.completed), cloud.completed);
    lemma_absorbed_newer_keys(indexed(local.pending), cloud.pending);
    lemma_position(merged.pending, id);
    lemma_position(merged.completed, id);
    let mp = merged_pending(local, cloud);
    let mc = merged_completed(local, cloud);
    if has_id(merged.pending, id) {
        let i = position(merged.pending, id)->0;
        assert(mp.contains_key(merged.pending[i].id));
    }
    if has_id(merged.completed, id) {
        let i = position(merged.completed, id)->0;
        assert(mc.contains_key(merged.completed[i].id));
    }
    assert(mp.contains_key(id) ==> has_id(merged.pending, id));
    assert(mc.contains_key(id) ==> has_id(merged.completed, id));
}

/// Absorbing a list into its own index changes nothing, if the list has no
/// repeated ids: no version is strictly later than itself.
pub proof fn lemma_absorb_self(p: Seq<ReminderView>, n: int)
    requires
        unique_ids(p),
        0 <= n <= p.len(),
    ensures
        absorbed_newer(indexed(p), p.take(n)) == indexed(p),
        absorbed_missing(indexed(p), p.take(n)) == indexed(p),
    decreases n,
{
    if n > 0 {
        lemma_absorb_self(p, n - 1);
        lemma_take_step(p, n - 1);
        lemma_indexed_lists(p);
        assert(indexed(p).contains_key(p[n - 1].id) && indexed(p)[p[n - 1].id] == p[n - 1]);
    }
}

/// Merging is idempotent: a valid store merged with itself gives the maps of
/// the store itself, so every merge of the store with itself has, in each
/// list, exactly the ids of that list of the store.
pub proof fn lemma_merge_idempotent(merged: StoreView, s: StoreView, id: int)
    requires
        valid_store(s),
        is_merge_of(merged, s, s),
    ensures
        merged_pending(s, s) == indexed(s.pending),
        merged_completed(s, s) == indexed(s.completed),
        has_id(merged.pending, id) <==> has_id(s.pending, id),
        has_id(merged.completed, id) <==> has_id(s.completed, id),
{
    lemma_valid_parts(s);
    lemma_absorb_self(s.pending, s.pending.len() as int);
    lemma_absorb_self(s.completed, s.completed.len() as int);
    assert(s.pending.take(s.pending.len() as int) =~= s.pending);
    assert(s.completed.take(s.completed.len() as int) =~= s.completed);
    assert forall|k: int| !conflicting(s, s, k) by {
        lemma_valid_disjoint(s, k);
    }
    assert(merged_pending(s, s) =~= indexed(s.pending));
    lemma_indexed_keys(s.pending);
    lemma_indexed_keys(s.completed);
    lemma_position(merged.pending, id);
    lemma_position(merged.completed, id);
    if has_id(merged.pending, id) {
        let i = position(merged.pending, id)->0;
        assert(indexed(s.pending).contains_key(merged.pending[i].id));
    }
    if has_id(merged.completed, id) {
        let i = position(merged.completed, id)->0;
        assert(indexed(s.completed).contains_key(merged.completed[i].id));
    }
    assert(indexed(s.pending).contains_key(id) ==> has_id(merged.pending, id));
    assert(indexed(s.completed).contains_key(id) ==> has_id(merged.completed, id));
}

/// In a valid store neither list repeats an id.
pub proof fn lemma_valid_parts(s: StoreView)
    requires
        valid_store(s),
    ensures
        unique_ids(s.pending),
        unique_ids(s.completed),
{
    let all = s.pending + s.completed;
    assert forall|i: int, j: int| 0 <= i < j < s.pending.len() implies (
    #[trigger] s.pending[i]).id != (#[trigger] s.pending[j]).id by {
        assert(all[i] == s.pending[i] && all[j] == s.pending[j]);
    }
    assert forall|i: int, j: int| 0 <= i < j < s.completed.len() implies (
    #[trigger] s.completed[i]).id != (#[trigger] s.completed[j]).id by {
        assert(all[s.pending.len() + i] == s.completed[i]);
        assert(all[s.pending.len() + j] == s.completed[j]);
    }
}

/// In a valid store no id is both pending and completed.
pub proof fn lemma_valid_disjoint(s: StoreView, id: int)
    requires
        valid_store(s),
    ensures
        !(has_id(s.pending, id) && has_id(s.completed, id)),
{
    lemma_position(s.pending, id);
    lemma_position(s.completed, id);
    if has_id(s.pending, id) && has_id(s.completed, id) {
        let all = s.pending + s.completed;
        let i = position(s.pending, id)->0;
        let j = position(s.completed, id)->0;
        assert(all[i] == s.pending[i]);
        assert(all[s.pending.len() + j] == s.completed[j]);
    }
}

/// A listing has as many items as the map has ids.
pub proof fn lemma_lists_len(p: Seq<ReminderView>, m: Map<int, ReminderView>)
    requires
        lists(p, m),
    ensures
        m.dom().finite(),
        m.dom().len() == p.len(),
    decreases p.len(),
{
    if p.len() == 0 {
        assert forall|k: int| !m.dom().contains(k) by {
            lemma_position(p, k);
            if m.contains_key(k) {
                assert(has_id(p, k));
            }
        }
        assert(m.dom() =~= Set::<int>::empty());
    } else {
        let last = p.len() - 1;
        let x = p[last];
        lemma_lists_remove(p, m, last);
        assert(p.remove(last) =~= p.drop_last());
        lemma_lists_len(p.drop_last(), m.remove(x.id));
        assert(m.contains_key(x.id));
        assert(m.dom() =~= m.remove(x.id).dom().insert(x.id));
    }
}

/// Absorbing pending items whose ids are all new, and differ from each
/// other, adds every one of them.
pub proof fn lemma_absorb_new(
    q: Seq<ReminderView>,
    m: Map<int, ReminderView>,
    p: Seq<ReminderView>,
    n: int,
)
    requires
        lists(q, m),
        unique_ids(q + p),
        0 <= n <= p.len(),
    ensures
        lists(q + p.take(n), absorbed_newer(m, p.take(n))),
        lists(q + p.take(n), absorbed_missing(m, p.take(n))),
    decreases n,
{
    if n == 0 {
        assert(q + p.take(0) =~= q);
    } else {
        lemma_absorb_new(q, m, p, n - 1);
        lemma_take_step(p, n - 1);
        let before = q + p.take(n - 1);
        let x = p[n - 1];
        let a = absorbed_newer(m, p.take(n - 1));
        let b = absorbed_missing(m, p.take(n - 1));
        assert(!has_id(before, x.id)) by {
            lemma_position(before, x.id);
            if has_id(before, x.id) {
                let i = position(before, x.id)->0;
                assert(before[i] == (q + p)[i]);
                assert((q + p)[q.len() + n - 1] == x);
            }
        }
        assert(!a.contains_key(x.id));
        assert(!b.contains_key(x.id));
        lemma_lists_push(before, a, x);
        lemma_lists_push(before, b, x);
        assert(before.push(x) =~= q + p.take(n));
    }
}

/// Merging two valid stores that share no id keeps every item: every merge
/// of the two has as many pending items as both copies together, and as many
/// completed items as both copies together.
pub proof fn lemma_merge_disjoint(merged: StoreView, a: StoreView, b: StoreView)
    requires
        valid_store(a),
        valid_store(b),
        disjoint_ids(a, b),
        is_merge_of(merged, a, b),
    ensures
        merged.pending.len() == a.pending.len() + b.pending.len(),
        merged.completed.len() == a.completed.len() + b.completed.len(),
{
    lemma_valid_parts(a);
    lemma_valid_parts(b);
    lemma_indexed_lists(a.pending);
    lemma_indexed_lists(a.completed);
    lemma_joined_unique(a.pending, b.pending);
    lemma_joined_unique(a.completed, b.completed);
    lemma_absorb_new(a.pending, indexed(a.pending), b.pending, b.pending.len() as int);
    lemma_absorb_new(a.completed, indexed(a.completed), b.completed, b.completed.len() as int);
    assert(b.pending.take(b.pending.len() as int) =~= b.pending);
    assert(b.completed.take(b.completed.len() as int) =~= b.completed);
    assert forall|k: int| !conflicting(a, b, k) by {}
    assert(merged_pending(a, b) =~= absorbed_newer(indexed(a.pending), b.pending));
    lemma_lists_len(merged.pending, merged_pending(a, b));
    lemma_lists_len(a.pending + b.pending, merged_pending(a, b));
    lemma_lists_len(merged.completed, merged_completed(a, b));
    lemma_lists_len(a.completed + b.completed, merged_completed(a, b));
}

/// Two lists without repeated ids that share no id have no repeated id when
/// joined.
pub proof fn lemma_joined_unique(p: Seq<ReminderView>, q: Seq<ReminderView>)
    requires
        unique_ids(p),
        unique_ids(q),
        forall|id: int| !(has_id(p, id) && has_id(q, id)),
    ensures
        unique_ids(p + q),
{
    let all = p + q;
    assert forall|i: int, j: int| 0 <= i < j < all.len() implies (#[trigger] all[i]).id != (
    #[trigger] all[j]).id by {
        if j < p.len() {
            assert(all[i] == p[i] && all[j] == p[j]);
        } else if i >= p.len() {
            assert(all[i] == q[i - p.len()] && all[j] == q[j - p.len()]);
        } else {
            assert(all[i] == p[i] && all[j] == q[j - p.len()]);
            lemma_has_id(p, all[i].id);
            lemma_has_id(q, all[j].id);
        }
    }
}

/// Merging keeps stores valid: every merge of two valid stores has every id
/// once, pending and completed taken together.
pub proof fn lemma_merge_valid(merged: StoreView, local: StoreView, cloud: StoreView)
    requires
        valid_store(local),
        valid_store(cloud),
        is_merge_of(merged, local, cloud),
    ensures
        valid_store(merged),
{
    assert forall|id: int| !(has_id(merged.pending, id) && has_id(merged.completed, id)) by {
        lemma_merge_keeps_ids(merged, local, cloud, id);
        lemma_valid_disjoint(local, id);
        lemma_valid_disjoint(cloud, id);
    }
    lemma_joined_unique(merged.pending, merged.completed);
}

} // verus!
