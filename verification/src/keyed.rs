//! Lists of values that are found by a name which they carry.
use vstd::prelude::*;

use crate::text::{lemma_span, lemma_span_is, same, span};

verus! {

/// A value that carries the name by which it is found.
pub trait Keyed: DeepView + Sized {
    spec fn key_of(v: Self::V) -> Seq<char>;

    fn key(&self) -> (r: &str)
        ensures
            r@ == Self::key_of(self.deep_view()),
    ;
}

/// The names in a list.
pub open spec fn names<T: Keyed>(s: Seq<T::V>) -> Seq<Seq<char>> {
    Seq::new(s.len(), |i: int| T::key_of(s[i]))
}

/// Where the first value of a name stands, or the length of the list.
pub open spec fn index_of<T: Keyed>(s: Seq<T::V>, key: Seq<char>) -> int {
    span(names::<T>(s), key) as int
}

/// Whether a list holds a value of a name.
pub open spec fn known<T: Keyed>(s: Seq<T::V>, key: Seq<char>) -> bool {
    index_of::<T>(s, key) < s.len()
}

/// The first value of a name.
pub open spec fn found<T: Keyed>(s: Seq<T::V>, key: Seq<char>) -> Option<T::V> {
    if known::<T>(s, key) {
        Some(s[index_of::<T>(s, key)])
    } else {
        None
    }
}

/// The list with a value in the place of the first one of its name, or behind the others.
pub open spec fn upserted<T: Keyed>(s: Seq<T::V>, x: T::V) -> Seq<T::V> {
    let i = index_of::<T>(s, T::key_of(x));
    if i < s.len() {
        s.update(i, x)
    } else {
        s.push(x)
    }
}

/// The list without the values of a name.
pub open spec fn rid_of<T: Keyed>(s: Seq<T::V>, key: Seq<char>) -> Seq<T::V>
    decreases s.len(),
{
    if s.len() == 0 {
        s
    } else if T::key_of(s.last()) == key {
        rid_of::<T>(s.drop_last(), key)
    } else {
        rid_of::<T>(s.drop_last(), key).push(s.last())
    }
}

/// Finds the first value of a name.
pub fn position<T: Keyed>(v: &Vec<T>, key: &str) -> (r: usize)
    ensures
        r == index_of::<T>(v.deep_view(), key@),
        r <= v@.len(),
{
    let ghost all = names::<T>(v.deep_view());
    let mut i: usize = 0;
    while i < v.len()
        invariant
            i <= v@.len(),
            all == names::<T>(v.deep_view()),
            forall|j: int| 0 <= j < i ==> all[j] != key@,
        decreases v@.len() - i,
    {
        assert(all[i as int] == T::key_of(v@[i as int].deep_view()));
        if same(v[i].key(), key) {
            proof {
                lemma_span_is(all, key@, i as int);
            }
            return i;
        }
        i = i + 1;
    }
    proof {
        lemma_span_is(all, key@, i as int);
    }
    i
}

/// The first value of a name.
pub fn get<'a, T: Keyed>(v: &'a Vec<T>, key: &str) -> (r: Option<&'a T>)
    ensures
        match r {
            Some(x) => found::<T>(v.deep_view(), key@) == Some(x.deep_view()),
            None => found::<T>(v.deep_view(), key@) is None,
        },
{
    let i = position(v, key);
    if i < v.len() {
        Some(&v[i])
    } else {
        None
    }
}

/// Puts a value in the place of the first one of its name, or behind the others.
pub fn upsert<T: Keyed>(v: &mut Vec<T>, x: T)
    ensures
        final(v).deep_view() == upserted::<T>(old(v).deep_view(), x.deep_view()),
{
    let ghost before = v.deep_view();
    let i = position(v, x.key());
    if i < v.len() {
        v.set(i, x);
    } else {
        v.push(x);
    }
    assert(v.deep_view() =~= upserted::<T>(before, x.deep_view()));
}

/// Takes away the values of a name.
pub fn discard<T: Keyed>(v: &mut Vec<T>, key: &str)
    ensures
        final(v).deep_view() == rid_of::<T>(old(v).deep_view(), key@),
{
    let ghost all = v.deep_view();
    let mut rows: Vec<T> = Vec::new();
    std::mem::swap(&mut rows, v);
    let ghost from = rows@;
    let mut kept: Vec<T> = Vec::new();
    let ghost mut n: int = 0;
    assert(kept.deep_view() =~= rid_of::<T>(all.take(0), key@));
    for x in it: rows
        invariant
            it.seq() == from,
            all == Seq::new(from.len(), |i: int| from[i].deep_view()),
            n == it.index(),
            kept.deep_view() == rid_of::<T>(all.take(n), key@),
    {
        proof {
            assert(x == from[n]);
            assert(all.take(n + 1).drop_last() =~= all.take(n));
            assert(all.take(n + 1).last() == all[n]);
        }
        let ghost before = kept.deep_view();
        if !same(x.key(), key) {
            kept.push(x);
            assert(kept.deep_view() =~= before.push(all[n]));
        }
        proof {
            n = n + 1;
        }
    }
    assert(all.take(n) =~= all);
    *v = kept;
}

/// What is found under a name carries that name.
pub proof fn lemma_found_carries_its_name<T: Keyed>(s: Seq<T::V>, key: Seq<char>)
    ensures
        found::<T>(s, key) matches Some(x) ==> T::key_of(x) == key,
{
    lemma_span(names::<T>(s), key);
}

/// What was put into a list is found in it.
pub proof fn lemma_upserted_is_found<T: Keyed>(s: Seq<T::V>, x: T::V)
    ensures
        found::<T>(upserted::<T>(s, x), T::key_of(x)) == Some(x),
{
    let key = T::key_of(x);
    let t = upserted::<T>(s, x);
    let a = names::<T>(s);
    let b = names::<T>(t);
    lemma_span(a, key);
    let n = index_of::<T>(s, key);
    assert forall|j: int| 0 <= j < n implies b[j] != key by {
        assert(a[j] == b[j]);
    }
    assert(b[n] == key);
    lemma_span_is(b, key, n);
}

/// Putting a value into a list leaves the values of other names as they are.
pub proof fn lemma_upsert_keeps<T: Keyed>(s: Seq<T::V>, x: T::V, other: Seq<char>)
    requires
        other != T::key_of(x),
    ensures
        found::<T>(upserted::<T>(s, x), other) == found::<T>(s, other),
{
    let key = T::key_of(x);
    let t = upserted::<T>(s, x);
    let a = names::<T>(s);
    let b = names::<T>(t);
    lemma_span(a, key);
    lemma_span(a, other);
    let n = index_of::<T>(s, other);
    let k = index_of::<T>(s, key);
    assert forall|j: int| 0 <= j < n implies b[j] != other by {
        if j != k {
            assert(b[j] == a[j]);
        }
    }
    if n < s.len() {
        assert(a[n] == other);
        assert(b[n] == a[n]);
        lemma_span_is(b, other, n);
    } else {
        assert forall|j: int| 0 <= j < t.len() implies b[j] != other by {
            if j < s.len() && j != k {
                assert(b[j] == a[j]);
            }
        }
        lemma_span_is(b, other, t.len() as int);
    }
}

proof fn lemma_found_push<T: Keyed>(s: Seq<T::V>, x: T::V, key: Seq<char>)
    ensures
        found::<T>(s.push(x), key) == (if known::<T>(s, key) {
            found::<T>(s, key)
        } else if T::key_of(x) == key {
            Some(x)
        } else {
            None
        }),
{
    let t = s.push(x);
    let a = names::<T>(s);
    let b = names::<T>(t);
    lemma_span(a, key);
    let n = index_of::<T>(s, key);
    assert forall|j: int| 0 <= j < n implies b[j] != key by {
        assert(a[j] == b[j]);
    }
    if n < s.len() {
        assert(a[n] == key);
        assert(b[n] == key);
        lemma_span_is(b, key, n);
    } else if T::key_of(x) == key {
        assert(b[n] == key);
        lemma_span_is(b, key, n);
    } else {
        assert(b[n] == T::key_of(x));
        lemma_span_is(b, key, n + 1);
    }
}

/// A value that was taken away is not found, and the others stay as they are.
pub proof fn lemma_rid_of<T: Keyed>(s: Seq<T::V>, key: Seq<char>, other: Seq<char>)
    ensures
        found::<T>(rid_of::<T>(s, key), key) is None,
        other != key ==> found::<T>(rid_of::<T>(s, key), other) == found::<T>(s, other),
    decreases s.len(),
{
    if s.len() == 0 {
        lemma_span(names::<T>(s), key);
    } else {
        let front = s.drop_last();
        lemma_rid_of::<T>(front, key, other);
        assert(s =~= front.push(s.last()));
        lemma_found_push::<T>(front, s.last(), other);
        if T::key_of(s.last()) != key {
            lemma_found_push::<T>(rid_of::<T>(front, key), s.last(), key);
            lemma_found_push::<T>(rid_of::<T>(front, key), s.last(), other);
        }
    }
}

} // verus!
