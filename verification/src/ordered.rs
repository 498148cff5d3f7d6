//! Stable ordering of records by a text key.

use vstd::prelude::*;
use crate::text::{
    lemma_text_le_reflexive, lemma_text_le_total, lemma_text_le_transitive, str_le, text_le,
};

verus! {

/// A record that listings order by one of its text fields.
pub trait Keyed: Sized {
    /// The text this record is ordered by.
    spec fn sort_key(&self) -> Seq<char>;

    /// Borrows the text this record is ordered by.
    fn key(&self) -> (k: &str)
        ensures
            k@ == self.sort_key(),
    ;
}

/// Keys never decrease along `s`.
pub open spec fn ordered<T: Keyed>(s: Seq<T>) -> bool {
    forall|i: int, j: int|
        0 <= i <= j < s.len() ==> text_le(#[trigger] s[i].sort_key(), #[trigger] s[j].sort_key())
}

/// Where a record with key `key` joins `s`: directly behind the last record
/// whose key sorts at or before `key`, or at the front when there is none.
pub open spec fn slot_for<T: Keyed>(s: Seq<T>, key: Seq<char>) -> int
    decreases s.len(),
{
    if s.len() == 0 {
        0
    } else if text_le(s.last().sort_key(), key) {
        s.len() as int
    } else {
        slot_for(s.drop_last(), key)
    }
}

/// `s` with `x` put in at its slot.
pub open spec fn place<T: Keyed>(s: Seq<T>, x: T) -> Seq<T> {
    s.insert(slot_for(s, x.sort_key()), x)
}

/// The records of `s` in key order; records with equal keys keep the order
/// they have in `s`.
pub open spec fn sorted_by_key<T: Keyed>(s: Seq<T>) -> Seq<T>
    decreases s.len(),
{
    if s.len() == 0 {
        Seq::empty()
    } else {
        place(sorted_by_key(s.drop_last()), s.last())
    }
}

/// What `slot_for` picks in a sequence that is in key order: everything
/// before the slot sorts at or before `key`, everything from it on sorts
/// strictly behind.
pub proof fn lemma_slot_for<T: Keyed>(s: Seq<T>, key: Seq<char>)
    requires
        ordered(s),
    ensures
        0 <= slot_for(s, key) <= s.len(),
        forall|i: int| 0 <= i < slot_for(s, key) ==> text_le(#[trigger] s[i].sort_key(), key),
        forall|i: int|
            slot_for(s, key) <= i < s.len() ==> !text_le(#[trigger] s[i].sort_key(), key),
    decreases s.len(),
{
    if s.len() == 0 {
    } else if text_le(s.last().sort_key(), key) {
        assert forall|i: int| 0 <= i < s.len() implies text_le(#[trigger] s[i].sort_key(), key) by {
            assert(text_le(s[i].sort_key(), s[s.len() - 1].sort_key()));
            lemma_text_le_transitive(s[i].sort_key(), s.last().sort_key(), key);
        }
    } else {
        let front = s.drop_last();
        assert forall|i: int, j: int| 0 <= i <= j < front.len() implies text_le(
            #[trigger] front[i].sort_key(),
            #[trigger] front[j].sort_key(),
        ) by {
            assert(text_le(s[i].sort_key(), s[j].sort_key()));
        }
        lemma_slot_for(front, key);
        assert forall|i: int| slot_for(s, key) <= i < s.len() implies !text_le(
            #[trigger] s[i].sort_key(),
            key,
        ) by {
            if i < front.len() {
                assert(s[i] == front[i]);
            }
        }
        assert forall|i: int| 0 <= i < slot_for(s, key) implies text_le(
            #[trigger] s[i].sort_key(),
            key,
        ) by {
            assert(s[i] == front[i]);
        }
    }
}

/// Putting a record in at its slot keeps key order, adds exactly that record
/// and moves no other record past another.
pub proof fn lemma_place<T: Keyed>(s: Seq<T>, x: T)
    requires
        ordered(s),
    ensures
        ordered(place(s, x)),
        place(s, x).len() == s.len() + 1,
        place(s, x).to_multiset() == s.to_multiset().insert(x),
{
    let key = x.sort_key();
    let p = slot_for(s, key);
    let r = place(s, x);
    lemma_slot_for(s, key);
    vstd::seq_lib::to_multiset_insert(s, p, x);
    assert forall|i: int, j: int| 0 <= i <= j < r.len() implies text_le(
        #[trigger] r[i].sort_key(),
        #[trigger] r[j].sort_key(),
    ) by {
        if i == j {
            lemma_text_le_reflexive(r[i].sort_key());
        } else if j == p {
            assert(r[i] == s[i]);
        } else if i == p {
            assert(r[j] == s[j - 1]);
            lemma_text_le_total(s[j - 1].sort_key(), key);
        } else {
            let si = if i < p { i } else { i - 1 };
            let sj = if j < p { j } else { j - 1 };
            assert(r[i] == s[si]);
            assert(r[j] == s[sj]);
            assert(text_le(s[si].sort_key(), s[sj].sort_key()));
        }
    }
}

/// `sorted_by_key` yields the same records, each as often as before, in key
/// order.
pub proof fn lemma_sorted_by_key<T: Keyed>(s: Seq<T>)
    ensures
        ordered(sorted_by_key(s)),
        sorted_by_key(s).len() == s.len(),
        sorted_by_key(s).to_multiset() == s.to_multiset(),
    decreases s.len(),
{
    broadcast use vstd::seq_lib::group_to_multiset_ensures;

    if s.len() == 0 {
        assert(s =~= Seq::<T>::empty());
    } else {
        let front = s.drop_last();
        lemma_sorted_by_key(front);
        lemma_place(sorted_by_key(front), s.last());
        assert(s =~= front.push(s.last()));
    }
}

/// The test whether a record's key is `key`.
pub open spec fn keyed_as<T: Keyed>(key: Seq<char>) -> spec_fn(T) -> bool {
    |x: T| x.sort_key() == key
}

/// The records of `s` whose key is `key`, in the order they have in `s`.
pub open spec fn with_key<T: Keyed>(s: Seq<T>, key: Seq<char>) -> Seq<T> {
    s.filter(keyed_as::<T>(key))
}

/// A record that is put in at its slot comes behind the records that share
/// its key, and the records of any other key are not touched.
pub proof fn lemma_place_stable<T: Keyed>(s: Seq<T>, item: T, key: Seq<char>)
    requires
        ordered(s),
    ensures
        with_key(place(s, item), key) == if item.sort_key() == key {
            with_key(s, key).push(item)
        } else {
            with_key(s, key)
        },
{
    let pred = keyed_as::<T>(key);
    let p = slot_for(s, item.sort_key());
    lemma_slot_for(s, item.sort_key());
    let head = s.subrange(0, p);
    let tail = s.subrange(p, s.len() as int);
    assert(s =~= head + tail);
    assert(place(s, item) == head.push(item) + tail);
    Seq::filter_distributes_over_add(head, tail, pred);
    Seq::filter_distributes_over_add(head.push(item), tail, pred);
    head.lemma_filter_push(item, pred);
    if item.sort_key() == key {
        assert(tail.len() == s.len() - p);
        assert forall|i: int| 0 <= i < tail.len() implies !pred(#[trigger] tail[i]) by {
            assert(0 <= p + i < s.len());
            assert(tail[i] == s[p + i]);
            assert(!text_le(s[p + i].sort_key(), item.sort_key()));
            lemma_text_le_reflexive(key);
        }
        let none = |x: T| !pred(x);
        assert forall|i: int| 0 <= i < tail.len() implies none(#[trigger] tail[i]) by {
            assert(!pred(tail[i]));
        }
        assert(tail.all(none));
        tail.lemma_all_neg_filter_empty(pred);
        assert(tail.filter(pred) =~= Seq::<T>::empty());
        assert(head.filter(pred).push(item) + tail.filter(pred) =~= (head.filter(pred)
            + tail.filter(pred)).push(item));
    }
}

/// Sorting is stable: the records that share a key stand in the sorted
/// sequence in the order they had before.
pub proof fn lemma_sorted_by_key_stable<T: Keyed>(s: Seq<T>, key: Seq<char>)
    ensures
        with_key(sorted_by_key(s), key) == with_key(s, key),
    decreases s.len(),
{
    if s.len() == 0 {
        assert(s =~= Seq::<T>::empty());
    } else {
        let front = s.drop_last();
        lemma_sorted_by_key_stable(front, key);
        lemma_sorted_by_key(front);
        lemma_place_stable(sorted_by_key(front), s.last(), key);
        assert(s =~= front.push(s.last()));
        front.lemma_filter_push(s.last(), keyed_as::<T>(key));
    }
}

/// Puts `x` into `v` at its slot.
pub fn insert_ordered<T: Keyed>(v: &mut Vec<T>, x: T)
    ensures
        final(v)@ == place(old(v)@, x),
{
    let mut i: usize = v.len();
    proof {
        assert(v@.take(i as int) =~= v@);
    }
    while i > 0 && !str_le(v[i - 1].key(), x.key())
        invariant
            0 <= i <= v.len(),
            v@ == old(v)@,
            slot_for(v@, x.sort_key()) == slot_for(v@.take(i as int), x.sort_key()),
        decreases i,
    {
        proof {
            assert(v@.take(i as int).drop_last() =~= v@.take(i - 1));
        }
        i -= 1;
    }
    v.insert(i, x);
}

/// Sorts records by key, keeping the order of records with equal keys.
pub fn sort_by_key<T: Keyed>(items: Vec<T>) -> (r: Vec<T>)
    ensures
        r@ == sorted_by_key(items@),
{
    let mut out: Vec<T> = Vec::new();
    for x in it: items
        invariant
            it.seq() == items@,
            out@ == sorted_by_key(items@.take(it.index())),
    {
        proof {
            let k = it.index();
            assert(items@.take(k + 1).drop_last() =~= items@.take(k));
        }
        insert_ordered(&mut out, x);
    }
    proof {
        assert(items@.take(items@.len() as int) =~= items@);
    }
    out
}

} // verus!
