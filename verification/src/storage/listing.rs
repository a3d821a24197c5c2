//! The lists as they are shown: pending items by sort order, completed items
//! latest first.
//!
//! Ranking is stable: items that rank alike stay in the order in which the
//! store holds them.

use vstd::prelude::*;
use vstd::utf8::encode_utf8;
use crate::reminder::{ListType, Reminder, ReminderView};
use crate::storage::admission::{in_list, lemma_filter_take_step, lemma_take_step, views};
use crate::storage::Storage;

verus! {

/// How a list is ranked for display.
#[derive(Debug, Clone, Copy, PartialEq, Eq, Structural)]
pub enum Ranking {
    /// By sort order, lowest first.
    BySortOrder,
    /// By the text of the completion time, greatest first; items without one
    /// come last.
    LatestFirst,
}

/// Whether `a`, from `i` on, comes before `b`, from `i` on, in the order of
/// byte strings: at the first place where they differ `a` has the smaller
/// byte, or `a` ends first.
pub open spec fn less_from(a: Seq<u8>, b: Seq<u8>, i: int) -> bool
    decreases a.len() - i,
{
    if i >= b.len() {
        false
    } else if i < 0 || i >= a.len() {
        true
    } else if a[i] != b[i] {
        a[i] < b[i]
    } else {
        less_from(a, b, i + 1)
    }
}

/// The bytes by which completed items are ranked: those of the completion
/// time, none for an item without one.
pub open spec fn completion_key(r: ReminderView) -> Seq<u8> {
    match r.completed_at {
        Some(t) => encode_utf8(t),
        None => Seq::empty(),
    }
}

/// Whether `x` has to stand before `y`.
pub open spec fn precedes(ranking: Ranking, x: ReminderView, y: ReminderView) -> bool {
    match ranking {
        Ranking::BySortOrder => x.sort_order < y.sort_order,
        Ranking::LatestFirst => less_from(completion_key(y), completion_key(x), 0),
    }
}

/// The place of `x` in the ranked list `s`, looked for from `from` on: in
/// front of the first item that `x` has to stand before, at the end if there
/// is none.
pub open spec fn slot(s: Seq<ReminderView>, x: ReminderView, ranking: Ranking, from: int) -> int
    decreases s.len() - from,
{
    if from < 0 || from >= s.len() {
        s.len() as int
    } else if precedes(ranking, x, s[from]) {
        from
    } else {
        slot(s, x, ranking, from + 1)
    }
}

/// The items of `p`, ranked: each item in turn takes its place among those
/// before it.
pub open spec fn ranked(p: Seq<ReminderView>, ranking: Ranking) -> Seq<ReminderView>
    decreases p.len(),
{
    if p.len() == 0 {
        Seq::empty()
    } else {
        let s = ranked(p.drop_last(), ranking);
        s.insert(slot(s, p.last(), ranking, 0), p.last())
    }
}

/// A slot is a place in the list or its end; no item in front of it has to
/// come after `x`, and the item at it, if any, has to.
pub proof fn lemma_slot(s: Seq<ReminderView>, x: ReminderView, ranking: Ranking, from: int)
    requires
        0 <= from <= s.len(),
    ensures
        from <= slot(s, x, ranking, from) <= s.len(),
        forall|i: int| from <= i < slot(s, x, ranking, from) ==> !precedes(ranking, x, #[trigger] s[i]),
        slot(s, x, ranking, from) < s.len() ==> precedes(ranking, x, s[slot(s, x, ranking, from)]),
    decreases s.len() - from,
{
    if from < s.len() && !precedes(ranking, x, s[from]) {
        lemma_slot(s, x, ranking, from + 1);
    }
}

/// A ranked list has the items of the list, as many as the list.
pub proof fn lemma_ranked_permutes(p: Seq<ReminderView>, ranking: Ranking)
    ensures
        ranked(p, ranking).len() == p.len(),
        ranked(p, ranking).to_multiset() == p.to_multiset(),
    decreases p.len(),
{
    broadcast use vstd::seq_lib::group_to_multiset_ensures;

    if p.len() > 0 {
        let s = ranked(p.drop_last(), ranking);
        lemma_ranked_permutes(p.drop_last(), ranking);
        lemma_slot(s, p.last(), ranking, 0);
        let k = slot(s, p.last(), ranking, 0);
        vstd::seq_lib::lemma_seq_union_to_multiset_commutative(s.take(k), s.skip(k));
        assert(s.insert(k, p.last()) =~= s.take(k).push(p.last()) + s.skip(k));
        assert(s =~= s.take(k) + s.skip(k));
        vstd::seq_lib::lemma_multiset_commutative(s.take(k), s.skip(k));
        vstd::seq_lib::lemma_multiset_commutative(s.take(k).push(p.last()), s.skip(k));
        assert(p =~= p.drop_last().push(p.last()));
    } else {
        assert(p =~= Seq::empty());
    }
}

/// The order of byte strings is strict: no string comes before itself.
pub proof fn lemma_less_irreflexive(a: Seq<u8>, i: int)
    requires
        0 <= i,
    ensures
        !less_from(a, a, i),
    decreases a.len() - i,
{
    if i < a.len() {
        lemma_less_irreflexive(a, i + 1);
    }
}

/// The order of byte strings is transitive.
pub proof fn lemma_less_transitive(a: Seq<u8>, b: Seq<u8>, c: Seq<u8>, i: int)
    requires
        0 <= i,
        less_from(a, b, i),
        less_from(b, c, i),
    ensures
        less_from(a, c, i),
    decreases a.len() - i,
{
    if i < a.len() && i < b.len() && i < c.len() && a[i] == b[i] && b[i] == c[i] {
        lemma_less_transitive(a, b, c, i + 1);
    }
}

/// Having to stand before is strict and transitive.
pub proof fn lemma_precedes_is_strict(
    ranking: Ranking,
    x: ReminderView,
    y: ReminderView,
    z: ReminderView,
)
    ensures
        !precedes(ranking, x, x),
        precedes(ranking, x, y) && precedes(ranking, y, z) ==> precedes(ranking, x, z),
{
    lemma_less_irreflexive(completion_key(x), 0);
    if precedes(ranking, x, y) && precedes(ranking, y, z) && ranking == Ranking::LatestFirst {
        lemma_less_transitive(completion_key(z), completion_key(y), completion_key(x), 0);
    }
}

/// A ranked list is in order: no item has to stand before an item in front
/// of it.
pub proof fn lemma_ranked_in_order(p: Seq<ReminderView>, ranking: Ranking)
    ensures
        forall|i: int, j: int|
            0 <= i <= j < ranked(p, ranking).len() ==> !precedes(
                ranking,
                #[trigger] ranked(p, ranking)[j],
                #[trigger] ranked(p, ranking)[i],
            ),
    decreases p.len(),
{
    if p.len() > 0 {
        let s = ranked(p.drop_last(), ranking);
        let x = p.last();
        lemma_ranked_in_order(p.drop_last(), ranking);
        lemma_slot(s, x, ranking, 0);
        let k = slot(s, x, ranking, 0);
        let r = s.insert(k, x);
        assert forall|i: int, j: int| 0 <= i <= j < r.len() implies !precedes(
            ranking,
            #[trigger] r[j],
            #[trigger] r[i],
        ) by {
            lemma_precedes_is_strict(ranking, r[i], r[i], r[i]);
            if i < k {
                assert(r[i] == s[i]);
            } else if i > k {
                assert(r[i] == s[i - 1]);
            }
            if j < k {
                assert(r[j] == s[j]);
            } else if j > k {
                assert(r[j] == s[j - 1]);
                if i == k {
                    // `x` stands before `s[k]`, which the later item does not.
                    assert(!precedes(ranking, s[j - 1], s[k]));
                    lemma_precedes_is_strict(ranking, s[j - 1], x, s[k]);
                }
            }
        }
    }
}

/// A list ranked by sort order has sort orders that never fall.
pub proof fn lemma_ranked_by_sort_order(p: Seq<ReminderView>, i: int, j: int)
    requires
        0 <= i <= j < p.len(),
    ensures
        ranked(p, Ranking::BySortOrder).len() == p.len(),
        ranked(p, Ranking::BySortOrder)[i].sort_order <= ranked(
            p,
            Ranking::BySortOrder,
        )[j].sort_order,
{
    lemma_ranked_in_order(p, Ranking::BySortOrder);
    lemma_ranked_permutes(p, Ranking::BySortOrder);
    let r = ranked(p, Ranking::BySortOrder);
    assert(!precedes(Ranking::BySortOrder, r[j], r[i]));
}

/// A list ranked latest first has completion times that never rise.
pub proof fn lemma_ranked_latest_first(p: Seq<ReminderView>, i: int, j: int)
    requires
        0 <= i <= j < p.len(),
    ensures
        ranked(p, Ranking::LatestFirst).len() == p.len(),
        !less_from(
            completion_key(ranked(p, Ranking::LatestFirst)[i]),
            completion_key(ranked(p, Ranking::LatestFirst)[j]),
            0,
        ),
{
    lemma_ranked_in_order(p, Ranking::LatestFirst);
    lemma_ranked_permutes(p, Ranking::LatestFirst);
    let r = ranked(p, Ranking::LatestFirst);
    assert(!precedes(Ranking::LatestFirst, r[j], r[i]));
}

/// Decides whether `a` comes before `b` in the order of byte strings.
pub fn bytes_less(a: &[u8], b: &[u8]) -> (r: bool)
    ensures
        r == less_from(a@, b@, 0),
{
    let mut i: usize = 0;
    loop
        invariant
            i <= a.len(),
            i <= b.len(),
            less_from(a@, b@, 0) == less_from(a@, b@, i as int),
        decreases a.len() - i,
    {
        if i >= b.len() {
            return false;
        }
        if i >= a.len() {
            return true;
        }
        if a[i] != b[i] {
            return a[i] < b[i];
        }
        i += 1;
    }
}

/// The bytes by which a completed item is ranked.
pub fn completion_bytes(r: &Reminder) -> (k: &[u8])
    ensures
        k@ == completion_key(r@),
{
    match &r.completed_at {
        Some(t) => t.as_str().as_bytes(),
        None => {
            proof {
                reveal_strlit("");
                assert(""@ =~= Seq::<char>::empty());
                assert(encode_utf8(Seq::<char>::empty()) =~= Seq::<u8>::empty());
            }
            "".as_bytes()
        },
    }
}

/// Decides whether `x` has to stand before `y`.
pub fn goes_before(ranking: Ranking, x: &Reminder, y: &Reminder) -> (r: bool)
    ensures
        r == precedes(ranking, x@, y@),
{
    match ranking {
        Ranking::BySortOrder => x.sort_order < y.sort_order,
        Ranking::LatestFirst => bytes_less(completion_bytes(y), completion_bytes(x)),
    }
}

/// Copies the items of `list`, ranked.
pub fn rank(list: &Vec<Reminder>, ranking: Ranking) -> (r: Vec<Reminder>)
    ensures
        views(r@) == ranked(views(list@), ranking),
{
    let ghost v = views(list@);
    let mut out: Vec<Reminder> = Vec::new();
    let mut i: usize = 0;
    while i < list.len()
        invariant
            i <= list.len(),
            v == views(list@),
            out.len() == i,
            views(out@) == ranked(v.take(i as int), ranking),
        decreases list.len() - i,
    {
        proof {
            lemma_take_step(v, i as int);
        }
        let ghost s = views(out@);
        let mut k: usize = 0;
        while k < out.len() && !goes_before(ranking, &list[i], &out[k])
            invariant
                k <= out.len(),
                i < list.len(),
                s == views(out@),
                v == views(list@),
                slot(s, v[i as int], ranking, 0) == slot(s, v[i as int], ranking, k as int),
            decreases out.len() - k,
        {
            k += 1;
        }
        out.insert(k, list[i].clone());
        assert(views(out@) =~= s.insert(k as int, v[i as int]));
        i += 1;
    }
    assert(v.take(list.len() as int) =~= v);
    out
}

/// Copies the items of `list` that belong to `which`, in order.
pub fn select_list(list: &Vec<Reminder>, which: ListType) -> (r: Vec<Reminder>)
    ensures
        views(r@) == views(list@).filter(in_list(which)),
{
    let ghost v = views(list@);
    let mut out: Vec<Reminder> = Vec::new();
    let mut i: usize = 0;
    proof {
        reveal(Seq::filter);
        assert(views(out@) =~= v.take(0).filter(in_list(which)));
    }
    while i < list.len()
        invariant
            i <= list.len(),
            v == views(list@),
            views(out@) == v.take(i as int).filter(in_list(which)),
        decreases list.len() - i,
    {
        proof {
            lemma_filter_take_step(v, in_list(which), i as int);
        }
        if list[i].list_type == which {
            let ghost before = views(out@);
            out.push(list[i].clone());
            assert(views(out@) =~= before.push(v[i as int]));
        }
        i += 1;
    }
    assert(v.take(list.len() as int) =~= v);
    out
}

impl Storage {
    /// The pending items, by sort order.
    pub fn get_pending_reminders(&self) -> (r: Vec<Reminder>)
        ensures
            views(r@) == ranked(self.data@.pending, Ranking::BySortOrder),
    {
        rank(&self.data.pending, Ranking::BySortOrder)
    }

    /// The Actual items, by sort order.
    pub fn get_actual_reminders(&self) -> (r: Vec<Reminder>)
        ensures
            views(r@) == ranked(
                self.data@.pending.filter(in_list(ListType::Actual)),
                Ranking::BySortOrder,
            ),
    {
        let items = select_list(&self.data.pending, ListType::Actual);
        rank(&items, Ranking::BySortOrder)
    }

    /// The Backlog items, by sort order.
    pub fn get_backlog_reminders(&self) -> (r: Vec<Reminder>)
        ensures
            views(r@) == ranked(
                self.data@.pending.filter(in_list(ListType::Backlog)),
                Ranking::BySortOrder,
            ),
    {
        let items = select_list(&self.data.pending, ListType::Backlog);
        rank(&items, Ranking::BySortOrder)
    }

    /// The completed items, latest first.
    pub fn get_completed_reminders(&self) -> (r: Vec<Reminder>)
        ensures
            views(r@) == ranked(self.data@.completed, Ranking::LatestFirst),
    {
        rank(&self.data.completed, Ranking::LatestFirst)
    }
}

} // verus!
