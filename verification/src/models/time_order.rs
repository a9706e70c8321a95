//! Items in the order of their start times.
//!
//! The order is stable: items with the same start keep the order they came
//! in. A row whose start is unknown sorts as if it started at 0.

use crate::models::schedule_row::ScheduleRow;
use vstd::prelude::*;

verus! {

/// What can be put in the order of its start time.
pub trait Timed {
    /// The start time by which items are ordered.
    spec fn sort_key(&self) -> u32;

    /// The start time by which items are ordered.
    fn start_key(&self) -> (r: u32)
        ensures
            r == self.sort_key(),
    ;
}

impl Timed for ScheduleRow {
    open spec fn sort_key(&self) -> u32 {
        self.start_or_zero_spec()
    }

    fn start_key(&self) -> (r: u32) {
        self.start_or_zero()
    }
}

/// Where a row with start `key` goes into `s`: behind the last row that
/// does not start later.
pub open spec fn insert_position<T: Timed>(s: Seq<T>, key: u32) -> int
    decreases s.len(),
{
    if s.len() == 0 {
        0
    } else if s.last().sort_key() <= key {
        s.len() as int
    } else {
        insert_position(s.drop_last(), key)
    }
}

/// The rows of `s` in the order of their start times.
pub open spec fn sorted_by_start<T: Timed>(s: Seq<T>) -> Seq<T>
    decreases s.len(),
{
    if s.len() == 0 {
        s
    } else {
        let front = sorted_by_start(s.drop_last());
        front.insert(insert_position(front, s.last().sort_key()), s.last())
    }
}

/// Whether no row of `s` starts before the row in front of it.
pub open spec fn is_time_ordered<T: Timed>(s: Seq<T>) -> bool {
    forall|i: int, j: int|
        #![trigger s[i], s[j]]
        0 <= i < j < s.len() ==> s[i].sort_key() <= s[j].sort_key()
}

proof fn lemma_insert_position<T: Timed>(s: Seq<T>, key: u32)
    ensures
        0 <= insert_position(s, key) <= s.len(),
        forall|i: int| insert_position(s, key) <= i < s.len() ==> s[i].sort_key() > key,
        insert_position(s, key) > 0 ==> s[insert_position(s, key) - 1].sort_key() <= key,
    decreases s.len(),
{
    if s.len() > 0 && s.last().sort_key() > key {
        lemma_insert_position(s.drop_last(), key);
        let p = insert_position(s.drop_last(), key);
        assert forall|i: int| p <= i < s.len() implies s[i].sort_key() > key by {
            if i < s.len() - 1 {
                assert(s.drop_last()[i] == s[i]);
            }
        }
        if p > 0 {
            assert(s.drop_last()[p - 1] == s[p - 1]);
        }
    }
}

proof fn lemma_insert_to_multiset<T: Timed>(front: Seq<T>, p: int, x: T)
    requires
        0 <= p <= front.len(),
    ensures
        front.insert(p, x).to_multiset() == front.to_multiset().insert(x),
{
    let out = front.insert(p, x);
    vstd::seq_lib::to_multiset_remove(out, p);
    assert(out.remove(p) =~= front);
    assert(out[p] == x);
    out.to_multiset_ensures();
    assert(out.contains(x));
    assert(out.to_multiset() =~= front.to_multiset().insert(x));
}

/// Sorting keeps every row, as often as it occurred.
pub proof fn lemma_sorted_is_permutation<T: Timed>(s: Seq<T>)
    ensures
        sorted_by_start(s).len() == s.len(),
        sorted_by_start(s).to_multiset() == s.to_multiset(),
    decreases s.len(),
{
    if s.len() > 0 {
        let front = sorted_by_start(s.drop_last());
        let x = s.last();
        let p = insert_position(front, x.sort_key());
        lemma_sorted_is_permutation(s.drop_last());
        lemma_insert_position(front, x.sort_key());
        lemma_insert_to_multiset(front, p, x);
        vstd::seq_lib::to_multiset_build(s.drop_last(), x);
        assert(s =~= s.drop_last().push(x));
    }
}

/// Sorting leaves the rows in rising order of their start times.
pub proof fn lemma_sorted_by_start<T: Timed>(s: Seq<T>)
    ensures
        sorted_by_start(s).len() == s.len(),
        is_time_ordered(sorted_by_start(s)),
    decreases s.len(),
{
    if s.len() > 0 {
        let front = sorted_by_start(s.drop_last());
        let x = s.last();
        let p = insert_position(front, x.sort_key());
        lemma_sorted_by_start(s.drop_last());
        lemma_insert_position(front, x.sort_key());
        let out = front.insert(p, x);
        assert forall|i: int, j: int| 0 <= i < j < out.len() implies out[i].sort_key()
            <= out[j].sort_key() by {
            if j < p {
                assert(out[i] == front[i] && out[j] == front[j]);
            } else if j == p {
                assert(out[i] == front[i]);
                if i < p - 1 {
                    assert(front[i].sort_key() <= front[p - 1].sort_key());
                }
            } else if i < p {
                assert(out[i] == front[i] && out[j] == front[j - 1]);
            } else if i == p {
                assert(out[j] == front[j - 1]);
            } else {
                assert(out[i] == front[i - 1] && out[j] == front[j - 1]);
            }
        }
    }
}

/// Rows that are in order already stay as they are.
pub proof fn lemma_sorted_is_fixed<T: Timed>(s: Seq<T>)
    requires
        is_time_ordered(s),
    ensures
        sorted_by_start(s) == s,
    decreases s.len(),
{
    if s.len() > 0 {
        let d = s.drop_last();
        assert forall|i: int, j: int| 0 <= i < j < d.len() implies d[i].sort_key()
            <= d[j].sort_key() by {
            assert(d[i] == s[i] && d[j] == s[j]);
        }
        lemma_sorted_is_fixed(d);
        if d.len() > 0 {
            assert(d.last() == s[d.len() - 1]);
        }
        assert(insert_position(d, s.last().sort_key()) == d.len());
        assert(d.insert(d.len() as int, s.last()) =~= s);
    }
}

/// Sorting twice gives what sorting once gives.
pub proof fn lemma_sort_idempotent<T: Timed>(s: Seq<T>)
    ensures
        sorted_by_start(sorted_by_start(s)) == sorted_by_start(s),
{
    lemma_sorted_by_start(s);
    lemma_sorted_is_fixed(sorted_by_start(s));
}

/// The items of `s` that start at `key`, in their order.
pub open spec fn started_at<T: Timed>(s: Seq<T>, key: u32) -> Seq<T>
    decreases s.len(),
{
    if s.len() == 0 {
        Seq::empty()
    } else if s.last().sort_key() == key {
        started_at(s.drop_last(), key).push(s.last())
    } else {
        started_at(s.drop_last(), key)
    }
}

proof fn lemma_started_at_concat<T: Timed>(a: Seq<T>, b: Seq<T>, key: u32)
    ensures
        started_at(a + b, key) == started_at(a, key) + started_at(b, key),
    decreases b.len(),
{
    if b.len() == 0 {
        assert(a + b =~= a);
        assert(started_at(a, key) + started_at(b, key) =~= started_at(a, key));
    } else {
        lemma_started_at_concat(a, b.drop_last(), key);
        assert((a + b).drop_last() =~= a + b.drop_last());
        assert((a + b).last() == b.last());
        if b.last().sort_key() == key {
            assert((started_at(a, key) + started_at(b.drop_last(), key)).push(b.last())
                =~= started_at(a, key) + started_at(b.drop_last(), key).push(b.last()));
        }
    }
}

proof fn lemma_started_at_none<T: Timed>(s: Seq<T>, key: u32)
    requires
        forall|i: int| 0 <= i < s.len() ==> (#[trigger] s[i]).sort_key() != key,
    ensures
        started_at(s, key) == Seq::<T>::empty(),
    decreases s.len(),
{
    if s.len() > 0 {
        assert(s.last() == s[s.len() - 1]);
        assert forall|i: int| 0 <= i < s.drop_last().len() implies (
        #[trigger] s.drop_last()[i]).sort_key() != key by {
            assert(s.drop_last()[i] == s[i]);
        }
        lemma_started_at_none(s.drop_last(), key);
    }
}

/// Sorting is stable: the items that start at the same time stay in the
/// order they came in.
pub proof fn lemma_sort_is_stable<T: Timed>(s: Seq<T>, key: u32)
    ensures
        started_at(sorted_by_start(s), key) == started_at(s, key),
    decreases s.len(),
{
    if s.len() > 0 {
        let front = sorted_by_start(s.drop_last());
        let x = s.last();
        let p = insert_position(front, x.sort_key());
        lemma_sort_is_stable(s.drop_last(), key);
        lemma_insert_position(front, x.sort_key());
        let head = front.take(p);
        let tail = front.skip(p);
        let out = front.insert(p, x);
        assert(out =~= head + seq![x] + tail);
        assert(front =~= head + tail);
        lemma_started_at_concat(head + seq![x], tail, key);
        lemma_started_at_concat(head, seq![x], key);
        lemma_started_at_concat(head, tail, key);
        let one = seq![x];
        assert(one.len() == 1);
        assert(one.last() == x);
        assert(one.drop_last() =~= Seq::<T>::empty());
        assert(started_at(one.drop_last(), key) =~= Seq::<T>::empty());
        if x.sort_key() == key {
            assert forall|i: int| 0 <= i < tail.len() implies (#[trigger] tail[i]).sort_key()
                != key by {
                assert(tail[i] == front[p + i]);
            }
            lemma_started_at_none(tail, key);
            assert(started_at(seq![x], key) =~= seq![x]);
            assert(started_at(head, key) + seq![x] + Seq::<T>::empty() =~= (started_at(head, key)
                + Seq::<T>::empty()).push(x));
        } else {
            assert(started_at(seq![x], key) =~= Seq::<T>::empty());
            assert(started_at(head, key) + Seq::<T>::empty() + started_at(tail, key)
                =~= started_at(head, key) + started_at(tail, key));
        }
    }
}

/// Puts the rows into the order of their start times, stably.
pub fn sort_by_start<T: Timed>(rows: &mut Vec<T>)
    ensures
        final(rows)@ == sorted_by_start(old(rows)@),
{
    let n = rows.len();
    let mut i: usize = 0;
    proof {
        assert(rows@.subrange(0, 0) =~= Seq::<T>::empty());
    }
    while i < n
        invariant
            n == rows.len(),
            n == old(rows)@.len(),
            i <= n,
            rows@.subrange(0, i as int) == sorted_by_start(old(rows)@.subrange(0, i as int)),
            rows@.subrange(i as int, n as int) == old(rows)@.subrange(i as int, n as int),
        decreases n - i,
    {
        let ghost before = rows@;
        let ghost front = before.subrange(0, i as int);
        let ghost rest = before.subrange(i as int, n as int);
        let x = rows.remove(i);
        let key = x.start_key();
        proof {
            assert(x == rest[0]);
            assert(x == old(rows)@[i as int]);
        }
        let mut j: usize = i;
        proof {
            assert(front.subrange(0, i as int) =~= front);
        }
        while j > 0 && rows[j - 1].start_key() > key
            invariant
                j <= i,
                i < n,
                rows@ == before.remove(i as int),
                front == before.subrange(0, i as int),
                n == before.len(),
                insert_position(front, key) == insert_position(front.subrange(0, j as int), key),
            decreases j,
        {
            proof {
                let f = front.subrange(0, j as int);
                assert(f.last() == rows@[j - 1]);
                assert(f.drop_last() =~= front.subrange(0, j - 1));
            }
            j = j - 1;
        }
        proof {
            let f = front.subrange(0, j as int);
            if j > 0 {
                assert(f.last() == rows@[j - 1]);
            }
            assert(insert_position(f, key) == j);
        }
        rows.insert(j, x);
        proof {
            let prev = old(rows)@.subrange(0, i as int);
            let next = old(rows)@.subrange(0, i + 1);
            assert(next.drop_last() =~= prev);
            assert(next.last() == x);
            assert(rows@.subrange(0, i + 1) =~= front.insert(j as int, x));
            let tail = rows@.subrange(i + 1, n as int);
            let old_tail = old(rows)@.subrange(i + 1, n as int);
            assert forall|k: int| 0 <= k < tail.len() implies #[trigger] tail[k] == old_tail[k] by {
                assert(rest[k + 1] == old(rows)@.subrange(i as int, n as int)[k + 1]);
            }
            assert(tail =~= old_tail);
        }
        i = i + 1;
    }
    proof {
        assert(rows@.subrange(0, n as int) =~= rows@);
        assert(old(rows)@.subrange(0, n as int) =~= old(rows)@);
    }
}

} // verus!
