//! Tables: values under texts, each text once, in the order in which they came.
use vstd::prelude::*;

use crate::text::{lemma_span, lemma_span_is, same, span};

verus! {

/// The texts of rows.
pub open spec fn keys<T>(rows: Seq<(Seq<char>, T)>) -> Seq<Seq<char>> {
    Seq::new(rows.len(), |i: int| rows[i].0)
}

/// Where the row of `key` stands, or the number of rows.
pub open spec fn row<T>(rows: Seq<(Seq<char>, T)>, key: Seq<char>) -> int {
    span(keys(rows), key) as int
}

/// Whether there is a value under `key`.
pub open spec fn has<T>(rows: Seq<(Seq<char>, T)>, key: Seq<char>) -> bool {
    row(rows, key) < rows.len()
}

/// The value under `key`.
pub open spec fn at<T>(rows: Seq<(Seq<char>, T)>, key: Seq<char>) -> Option<T> {
    if has(rows, key) {
        Some(rows[row(rows, key)].1)
    } else {
        None
    }
}

/// The rows with `x` under `key`, in the place of what was there.
pub open spec fn put<T>(rows: Seq<(Seq<char>, T)>, key: Seq<char>, x: T) -> Seq<(Seq<char>, T)> {
    if has(rows, key) {
        rows.update(row(rows, key), (key, x))
    } else {
        rows.push((key, x))
    }
}

/// The rows without those of `key`.
pub open spec fn without<T>(rows: Seq<(Seq<char>, T)>, key: Seq<char>) -> Seq<(Seq<char>, T)>
    decreases rows.len(),
{
    if rows.len() == 0 {
        rows
    } else if rows.last().0 == key {
        without(rows.drop_last(), key)
    } else {
        without(rows.drop_last(), key).push(rows.last())
    }
}

/// Whether every text has one row.
pub open spec fn distinct<T>(rows: Seq<(Seq<char>, T)>) -> bool {
    forall|i: int, j: int|
        0 <= i < j < rows.len() ==> (#[trigger] rows[i]).0 != (#[trigger] rows[j]).0
}

/// What was put under a text is found there.
pub proof fn lemma_put_at<T>(rows: Seq<(Seq<char>, T)>, key: Seq<char>, x: T)
    ensures
        at(put(rows, key, x), key) == Some(x),
{
    let t = put(rows, key, x);
    lemma_span(keys(rows), key);
    let n = row(rows, key);
    assert forall|j: int| 0 <= j < n implies keys(t)[j] != key by {
        assert(keys(rows)[j] == keys(t)[j]);
    }
    assert(keys(t)[n] == key);
    lemma_span_is(keys(t), key, n);
}

/// Putting a value under one text leaves what is under another as it is.
pub proof fn lemma_put_keeps<T>(rows: Seq<(Seq<char>, T)>, key: Seq<char>, x: T, other: Seq<char>)
    requires
        other != key,
    ensures
        at(put(rows, key, x), other) == at(rows, other),
{
    let t = put(rows, key, x);
    let a = keys(rows);
    let b = keys(t);
    lemma_span(a, key);
    lemma_span(a, other);
    let n = row(rows, other);
    let k = row(rows, key);
    assert forall|j: int| 0 <= j < n implies b[j] != other by {
        if j != k {
            assert(b[j] == a[j]);
        }
    }
    if n < rows.len() {
        assert(a[n] == other);
        assert(b[n] == a[n]);
        lemma_span_is(b, other, n);
        assert(t[n] == rows[n]);
    } else {
        assert forall|j: int| 0 <= j < t.len() implies b[j] != other by {
            if j < rows.len() && j != k {
                assert(b[j] == a[j]);
            }
        }
        lemma_span_is(b, other, t.len() as int);
    }
}

proof fn lemma_at_push<T>(rows: Seq<(Seq<char>, T)>, r: (Seq<char>, T), key: Seq<char>)
    ensures
        at(rows.push(r), key) == (if has(rows, key) {
            at(rows, key)
        } else if r.0 == key {
            Some(r.1)
        } else {
            None
        }),
{
    let t = rows.push(r);
    lemma_span(keys(rows), key);
    let n = row(rows, key);
    assert forall|j: int| 0 <= j < n implies keys(t)[j] != key by {
        assert(keys(rows)[j] == keys(t)[j]);
    }
    if n < rows.len() {
        assert(keys(rows)[n] == key);
        assert(keys(t)[n] == key);
        lemma_span_is(keys(t), key, n);
    } else if r.0 == key {
        assert(keys(t)[n] == key);
        lemma_span_is(keys(t), key, n);
    } else {
        assert(keys(t)[n] == r.0);
        lemma_span_is(keys(t), key, n + 1);
    }
}

/// Nothing is found under a text whose rows were taken away; the others stay as they are.
pub proof fn lemma_without_at<T>(rows: Seq<(Seq<char>, T)>, key: Seq<char>, other: Seq<char>)
    ensures
        at(without(rows, key), key) is None,
        other != key ==> at(without(rows, key), other) == at(rows, other),
    decreases rows.len(),
{
    if rows.len() == 0 {
        lemma_span(keys(rows), key);
    } else {
        let front = rows.drop_last();
        lemma_without_at(front, key, other);
        assert(rows =~= front.push(rows.last()));
        lemma_at_push(front, rows.last(), other);
        if rows.last().0 != key {
            lemma_at_push(without(front, key), rows.last(), key);
            lemma_at_push(without(front, key), rows.last(), other);
        }
    }
}

proof fn lemma_without_from<T>(rows: Seq<(Seq<char>, T)>, key: Seq<char>)
    ensures
        forall|i: int|
            0 <= i < without(rows, key).len() ==> rows.contains(#[trigger] without(rows, key)[i]),
    decreases rows.len(),
{
    if rows.len() > 0 {
        let front = rows.drop_last();
        lemma_without_from(front, key);
        let t = without(rows, key);
        assert forall|i: int| 0 <= i < t.len() implies rows.contains(#[trigger] t[i]) by {
            if i < without(front, key).len() {
                assert(front.contains(without(front, key)[i]));
                let k = choose|k: int| 0 <= k < front.len() && front[k] == t[i];
                assert(rows[k] == t[i]);
            } else {
                assert(rows[rows.len() - 1] == t[i]);
            }
        }
    }
}

/// Taking away keeps every text to one row.
pub proof fn lemma_without_distinct<T>(rows: Seq<(Seq<char>, T)>, key: Seq<char>)
    requires
        distinct(rows),
    ensures
        distinct(without(rows, key)),
    decreases rows.len(),
{
    if rows.len() > 0 {
        let front = rows.drop_last();
        assert forall|i: int, j: int| 0 <= i < j < front.len() implies (#[trigger] front[i]).0 != (
        #[trigger] front[j]).0 by {
            assert(rows[i].0 != rows[j].0);
        }
        lemma_without_distinct(front, key);
        lemma_without_from(front, key);
        let u = without(rows, key);
        let v = without(front, key);
        assert forall|i: int, j: int| 0 <= i < j < u.len() implies (#[trigger] u[i]).0 != (
        #[trigger] u[j]).0 by {
            if j < v.len() {
                assert(v[i].0 != v[j].0);
            } else {
                assert(front.contains(v[i]));
                let k = choose|k: int| 0 <= k < front.len() && front[k] == v[i];
                assert(rows[k].0 != rows[rows.len() - 1].0);
            }
        }
    }
}

/// Putting keeps every text to one row.
pub proof fn lemma_put_distinct<T>(rows: Seq<(Seq<char>, T)>, key: Seq<char>, x: T)
    requires
        distinct(rows),
    ensures
        distinct(put(rows, key, x)),
{
    let t = put(rows, key, x);
    let n = row(rows, key);
    lemma_span(keys(rows), key);
    assert forall|i: int, j: int| 0 <= i < j < t.len() implies (#[trigger] t[i]).0 != (
    #[trigger] t[j]).0 by {
        if i < rows.len() {
            assert(keys(rows)[i] == rows[i].0);
        }
        if j < rows.len() {
            assert(keys(rows)[j] == rows[j].0);
            assert(rows[i].0 != rows[j].0);
        }
        if n < rows.len() {
            assert(keys(rows)[n] == key);
        }
    }
}

/// Which texts have rows is changed alike by putting and taking away, whatever the values are.
pub proof fn lemma_keys_alike<T, U>(
    a: Seq<(Seq<char>, T)>,
    b: Seq<(Seq<char>, U)>,
    key: Seq<char>,
    x: T,
    y: U,
)
    requires
        keys(a) == keys(b),
    ensures
        has(a, key) == has(b, key),
        keys(put(a, key, x)) == keys(put(b, key, y)),
        keys(without(a, key)) == keys(without(b, key)),
    decreases a.len(),
{
    assert(a.len() == keys(a).len());
    assert(b.len() == keys(b).len());
    assert forall|i: int| 0 <= i < a.len() implies (#[trigger] a[i]).0 == b[i].0 by {
        assert(keys(a)[i] == keys(b)[i]);
    }
    assert(keys(put(a, key, x)) =~= keys(put(b, key, y)));
    if a.len() > 0 {
        let n = a.len() - 1;
        assert(keys(a.drop_last()) =~= keys(b.drop_last()));
        lemma_keys_alike(a.drop_last(), b.drop_last(), key, x, y);
        let u = without(a.drop_last(), key);
        let v = without(b.drop_last(), key);
        assert(a[n].0 == b[n].0);
        assert(keys(u.push(a[n])) =~= keys(u).push(a[n].0));
        assert(keys(v.push(b[n])) =~= keys(v).push(b[n].0));
    }
}

/// Rows with their values seen through a function.
pub open spec fn mapped<T, U>(rows: Seq<(Seq<char>, T)>, f: spec_fn(T) -> U) -> Seq<
    (Seq<char>, U),
> {
    Seq::new(rows.len(), |i: int| (rows[i].0, f(rows[i].1)))
}

/// Looking up and putting are the same before and after values are seen through a function.
pub proof fn lemma_mapped<T, U>(
    rows: Seq<(Seq<char>, T)>,
    f: spec_fn(T) -> U,
    key: Seq<char>,
    x: T,
)
    ensures
        has(mapped(rows, f), key) == has(rows, key),
        at(mapped(rows, f), key) == (match at(rows, key) {
            Some(y) => Some(f(y)),
            None => None,
        }),
        mapped(put(rows, key, x), f) == put(mapped(rows, f), key, f(x)),
{
    assert(keys(mapped(rows, f)) =~= keys(rows));
    lemma_span(keys(rows), key);
    assert(mapped(put(rows, key, x), f) =~= put(mapped(rows, f), key, f(x)));
}

/// Taking away is the same before and after values are seen through a function.
pub proof fn lemma_mapped_without<T, U>(
    rows: Seq<(Seq<char>, T)>,
    f: spec_fn(T) -> U,
    key: Seq<char>,
)
    ensures
        mapped(without(rows, key), f) == without(mapped(rows, f), key),
    decreases rows.len(),
{
    if rows.len() > 0 {
        lemma_mapped_without(rows.drop_last(), f, key);
        assert(mapped(rows, f).drop_last() =~= mapped(rows.drop_last(), f));
        assert(mapped(rows, f).last() == (rows.last().0, f(rows.last().1)));
    }
    assert(mapped(without(rows, key), f) =~= without(mapped(rows, f), key));
}

/// What is found under each text.
pub open spec fn as_map<T>(rows: Seq<(Seq<char>, T)>) -> Map<Seq<char>, T> {
    Map::new(|k: Seq<char>| has(rows, k), |k: Seq<char>| rows[row(rows, k)].1)
}

/// Putting into a table inserts into what is found.
pub proof fn lemma_put_map<T>(rows: Seq<(Seq<char>, T)>, key: Seq<char>, x: T)
    ensures
        as_map(put(rows, key, x)) == as_map(rows).insert(key, x),
{
    let a = as_map(put(rows, key, x));
    let b = as_map(rows).insert(key, x);
    lemma_put_at(rows, key, x);
    assert forall|k: Seq<char>| #[trigger]
        a.dom().contains(k) == b.dom().contains(k) && (a.dom().contains(k) ==> a[k] == b[k]) by {
        if k != key {
            lemma_put_keeps(rows, key, x, k);
            assert(at(put(rows, key, x), k) == at(rows, k));
        }
    }
    assert(a =~= b);
}

/// Taking away from a table removes from what is found.
pub proof fn lemma_without_map<T>(rows: Seq<(Seq<char>, T)>, key: Seq<char>)
    ensures
        as_map(without(rows, key)) == as_map(rows).remove(key),
{
    let a = as_map(without(rows, key));
    let b = as_map(rows).remove(key);
    assert forall|k: Seq<char>| #[trigger]
        a.dom().contains(k) == b.dom().contains(k) && (a.dom().contains(k) ==> a[k] == b[k]) by {
        lemma_without_at(rows, key, k);
        if k != key {
            assert(at(without(rows, key), k) == at(rows, k));
        }
    }
    assert(a =~= b);
}

/// A table of values under texts.
#[derive(Debug)]
pub struct Table<T> {
    rows: Vec<(String, T)>,
}

/// Rows as they stand.
pub open spec fn row_views<T>(rows: Seq<(String, T)>) -> Seq<(Seq<char>, T)> {
    Seq::new(rows.len(), |i: int| (rows[i].0@, rows[i].1))
}

impl<T> View for Table<T> {
    type V = Seq<(Seq<char>, T)>;

    closed spec fn view(&self) -> Seq<(Seq<char>, T)> {
        row_views(self.rows@)
    }
}

impl<T> Table<T> {
    /// Every text has one row. A new table is so, and stays so whatever is put and taken away.
    pub open spec fn sound(&self) -> bool {
        distinct(self@)
    }

    /// A table without rows.
    pub fn new() -> (r: Table<T>)
        ensures
            r.sound(),
            r@ == Seq::<(Seq<char>, T)>::empty(),
    {
        let r = Table { rows: Vec::new() };
        assert(r@ =~= Seq::empty());
        r
    }

    fn find(&self, key: &str) -> (r: usize)
        ensures
            r == row(self@, key@),
            r <= self.rows@.len(),
    {
        let ghost names = keys(self@);
        let mut i: usize = 0;
        while i < self.rows.len()
            invariant
                i <= self.rows@.len(),
                names == keys(self@),
                forall|j: int| 0 <= j < i ==> names[j] != key@,
            decreases self.rows@.len() - i,
        {
            assert(names[i as int] == self.rows@[i as int].0@);
            if same(self.rows[i].0.as_str(), key) {
                proof {
                    lemma_span_is(names, key@, i as int);
                }
                return i;
            }
            i = i + 1;
        }
        proof {
            lemma_span_is(names, key@, i as int);
        }
        i
    }

    /// Puts a value under a text, in the place of what was there.
    pub fn put(&mut self, key: &str, x: T)
        ensures
            final(self)@ == put(old(self)@, key@, x),
            old(self).sound() ==> final(self).sound(),
    {
        let ghost before = self@;
        proof {
            if self.sound() {
                lemma_put_distinct(before, key@, x);
            }
        }
        let i = self.find(key);
        if i < self.rows.len() {
            self.rows.set(i, (key.to_owned(), x));
        } else {
            self.rows.push((key.to_owned(), x));
        }
        assert(self@ =~= put(before, key@, x));
    }

    /// The value under a text.
    pub fn get(&self, key: &str) -> (r: Option<&T>)
        ensures
            match r {
                Some(x) => at(self@, key@) == Some(*x),
                None => at(self@, key@) is None,
            },
    {
        let i = self.find(key);
        if i < self.rows.len() {
            Some(&self.rows[i].1)
        } else {
            None
        }
    }

    /// The value under a text, to change it in place.
    pub fn get_mut(&mut self, key: &str) -> (r: Option<&mut T>)
        ensures
            match r {
                Some(x) => {
                    &&& at(old(self)@, key@) == Some(*x)
                    &&& final(self)@ == put(old(self)@, key@, *final(x))
                },
                None => {
                    &&& at(old(self)@, key@) is None
                    &&& final(self)@ == old(self)@
                },
            },
            old(self).sound() ==> final(self).sound(),
    {
        let i = self.find(key);
        proof {
            let rows = self.rows@;
            if self.sound() {
                assert forall|s: Seq<(String, T)>|
                    s.len() == rows.len() && (forall|k: int|
                        0 <= k < s.len() ==> (#[trigger] s[k]).0 == rows[k].0) implies distinct(
                    #[trigger] row_views(s),
                ) by {
                    assert forall|a: int, b: int| 0 <= a < b < s.len() implies row_views(s)[a].0
                        != row_views(s)[b].0 by {
                        assert(s[a].0 == rows[a].0 && s[b].0 == rows[b].0);
                        assert(row_views(rows)[a].0 != row_views(rows)[b].0);
                    }
                }
            }
            lemma_span(keys(self@), key@);
            if i < self.rows@.len() {
                assert(keys(self@)[i as int] == self.rows@[i as int].0@);
            }
        }
        if i < self.rows.len() {
            Some(&mut self.rows[i].1)
        } else {
            None
        }
    }

    /// Whether there is a value under a text.
    pub fn contains(&self, key: &str) -> (r: bool)
        ensures
            r == has(self@, key@),
    {
        self.find(key) < self.rows.len()
    }

    /// Takes away what is under a text; tells whether there was anything.
    pub fn remove(&mut self, key: &str) -> (r: bool)
        ensures
            r == has(old(self)@, key@),
            final(self)@ == without(old(self)@, key@),
            old(self).sound() ==> final(self).sound(),
    {
        let found = self.contains(key);
        let ghost all = self@;
        proof {
            if self.sound() {
                lemma_without_distinct(all, key@);
            }
        }
        let mut rows: Vec<(String, T)> = Vec::new();
        std::mem::swap(&mut rows, &mut self.rows);
        let ghost from = rows@;
        let mut kept: Vec<(String, T)> = Vec::new();
        let ghost mut n: int = 0;
        assert(row_views(kept@) =~= without(all.take(0), key@));
        for r in it: rows
            invariant
                it.seq() == from,
                all == row_views(from),
                n == it.index(),
                row_views(kept@) == without(all.take(n), key@),
        {
            proof {
                assert(r == from[n]);
                assert(all.take(n + 1).drop_last() =~= all.take(n));
                assert(all.take(n + 1).last() == all[n]);
            }
            let ghost before = row_views(kept@);
            if !same(r.0.as_str(), key) {
                kept.push(r);
                assert(row_views(kept@) =~= before.push(all[n]));
            }
            proof {
                n = n + 1;
            }
        }
        assert(all.take(n) =~= all);
        self.rows = kept;
        found
    }

    /// The number of rows.
    pub fn len(&self) -> (r: usize)
        ensures
            r == self@.len(),
    {
        self.rows.len()
    }

    /// The text of a row.
    pub fn key_at(&self, i: usize) -> (r: &str)
        requires
            i < self@.len(),
        ensures
            r@ == self@[i as int].0,
    {
        self.rows[i].0.as_str()
    }

    /// The value in a row.
    pub fn value_at(&self, i: usize) -> (r: &T)
        requires
            i < self@.len(),
        ensures
            *r == self@[i as int].1,
    {
        &self.rows[i].1
    }
}

} // verus!
