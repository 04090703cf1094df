//! Sorting, stable and by a total order.
use vstd::prelude::*;

use crate::text::chars_of;

verus! {

broadcast use vstd::multiset::group_multiset_axioms;

/// A value that has a place in an order.
pub trait Ranked: DeepView + Sized {
    /// Whether `a` may stand before `b`.
    spec fn before(a: Self::V, b: Self::V) -> bool;

    /// Whether this value may stand before the other.
    fn may_precede(&self, other: &Self) -> (r: bool)
        ensures
            r == Self::before(self.deep_view(), other.deep_view()),
    ;

    proof fn total(a: Self::V, b: Self::V)
        ensures
            Self::before(a, b) || Self::before(b, a),
    ;

    proof fn transitive(a: Self::V, b: Self::V, c: Self::V)
        requires
            Self::before(a, b),
            Self::before(b, c),
        ensures
            Self::before(a, c),
    ;
}

/// `x` put behind all that may stand before it, in a sorted sequence.
pub open spec fn placed<T: Ranked>(s: Seq<T::V>, x: T::V) -> Seq<T::V>
    decreases s.len(),
{
    if s.len() == 0 || T::before(s.last(), x) {
        s.push(x)
    } else {
        placed::<T>(s.drop_last(), x).push(s.last())
    }
}

/// The same values in order; equals stay in the order in which they came.
pub open spec fn sorted<T: Ranked>(s: Seq<T::V>) -> Seq<T::V>
    decreases s.len(),
{
    if s.len() == 0 {
        s
    } else {
        placed::<T>(sorted::<T>(s.drop_last()), s.last())
    }
}

/// Whether every value may stand before those that follow it.
pub open spec fn in_order<T: Ranked>(s: Seq<T::V>) -> bool {
    forall|i: int, j: int| 0 <= i < j < s.len() ==> T::before(#[trigger] s[i], #[trigger] s[j])
}

proof fn lemma_placed<T: Ranked>(s: Seq<T::V>, x: T::V)
    requires
        in_order::<T>(s),
    ensures
        in_order::<T>(placed::<T>(s, x)),
        placed::<T>(s, x).to_multiset() == s.to_multiset().insert(x),
        placed::<T>(s, x).len() == s.len() + 1,
        placed::<T>(s, x).contains(x),
        forall|y: T::V| #[trigger] placed::<T>(s, x).contains(y) ==> y == x || s.contains(y),
    decreases s.len(),
{
    broadcast use vstd::seq_lib::group_to_multiset_ensures;

    let p = placed::<T>(s, x);
    if s.len() == 0 || T::before(s.last(), x) {
        assert(p == s.push(x));
        assert(p[s.len() as int] == x);
        assert forall|i: int, j: int| 0 <= i < j < p.len() implies T::before(
            #[trigger] p[i],
            #[trigger] p[j],
        ) by {
            if j == s.len() && i < s.len() - 1 {
                T::transitive(s[i], s.last(), x);
            }
        }
    } else {
        let front = s.drop_last();
        let q = placed::<T>(front, x);
        lemma_placed::<T>(front, x);
        assert(p == q.push(s.last()));
        T::total(s.last(), x);
        assert forall|i: int, j: int| 0 <= i < j < p.len() implies T::before(
            #[trigger] p[i],
            #[trigger] p[j],
        ) by {
            if j == q.len() {
                assert(q.contains(q[i]));
                if q[i] != x {
                    let k = choose|k: int| 0 <= k < front.len() && front[k] == q[i];
                    assert(s[k] == q[i]);
                }
            }
        }
        let at = choose|k: int| 0 <= k < q.len() && q[k] == x;
        assert(p[at] == x);
        assert forall|y: T::V| #[trigger] p.contains(y) implies y == x || s.contains(y) by {
            let k = choose|k: int| 0 <= k < p.len() && p[k] == y;
            if k < q.len() {
                assert(q[k] == y);
                assert(q.contains(y));
                if y != x {
                    let m = choose|m: int| 0 <= m < front.len() && front[m] == y;
                    assert(s[m] == y);
                }
            } else {
                assert(s[s.len() - 1] == y);
            }
        }
        assert(s =~= front.push(s.last()));
        assert(p.to_multiset() =~= s.to_multiset().insert(x));
    }
}

/// A sorted sequence is in order, and holds what it was made of, as often.
pub proof fn lemma_sorted<T: Ranked>(s: Seq<T::V>)
    ensures
        in_order::<T>(sorted::<T>(s)),
        sorted::<T>(s).to_multiset() == s.to_multiset(),
        sorted::<T>(s).len() == s.len(),
    decreases s.len(),
{
    broadcast use vstd::seq_lib::group_to_multiset_ensures;

    if s.len() > 0 {
        lemma_sorted::<T>(s.drop_last());
        lemma_placed::<T>(sorted::<T>(s.drop_last()), s.last());
        assert(s =~= s.drop_last().push(s.last()));
    }
}

/// What is in order stays as it is: equals are not exchanged.
pub proof fn lemma_sorted_stays<T: Ranked>(s: Seq<T::V>)
    requires
        in_order::<T>(s),
    ensures
        sorted::<T>(s) == s,
    decreases s.len(),
{
    if s.len() > 0 {
        let front = s.drop_last();
        assert forall|i: int, j: int| 0 <= i < j < front.len() implies T::before(
            #[trigger] front[i],
            #[trigger] front[j],
        ) by {
            assert(front[i] == s[i] && front[j] == s[j]);
        }
        lemma_sorted_stays::<T>(front);
        if front.len() > 0 {
            assert(front.last() == s[s.len() - 2]);
            assert(s.last() == s[s.len() - 1]);
            assert(T::before(s[s.len() - 2], s[s.len() - 1]));
        }
        assert(front.push(s.last()) =~= s);
    }
}

fn place<T: Ranked>(out: &mut Vec<T>, x: T)
    ensures
        final(out).deep_view() == placed::<T>(old(out).deep_view(), x.deep_view()),
{
    let ghost all = out.deep_view();
    let ghost v = x.deep_view();
    let mut n: usize = out.len();
    assert(all.take(n as int) =~= all);
    assert(all.skip(n as int) =~= Seq::empty());
    assert(placed::<T>(all, v) + all.skip(n as int) =~= placed::<T>(all, v));
    while n > 0 && !out[n - 1].may_precede(&x)
        invariant
            n <= out@.len(),
            all == out.deep_view(),
            v == x.deep_view(),
            placed::<T>(all.take(n as int), v) + all.skip(n as int) == placed::<T>(all, v),
        decreases n,
    {
        proof {
            let part = all.take(n as int);
            assert(part.last() == out@[n - 1].deep_view());
            assert(part.drop_last() =~= all.take(n - 1));
            assert(placed::<T>(all.take(n - 1), v).push(part.last()) + all.skip(n as int)
                =~= placed::<T>(all.take(n - 1), v) + all.skip(n - 1));
        }
        n = n - 1;
    }
    proof {
        if n > 0 {
            assert(all.take(n as int).last() == out@[n - 1].deep_view());
        }
        assert(placed::<T>(all.take(n as int), v) == all.take(n as int).push(v));
    }
    out.insert(n, x);
    assert(out.deep_view() =~= all.take(n as int).push(v) + all.skip(n as int));
}

/// Sorts values; equals stay in the order in which they came.
pub fn sort<T: Ranked>(v: Vec<T>) -> (out: Vec<T>)
    ensures
        out.deep_view() == sorted::<T>(v.deep_view()),
{
    let ghost all = v.deep_view();
    let mut out: Vec<T> = Vec::new();
    let ghost mut n: int = 0;
    assert(all.take(0) =~= Seq::empty());
    assert(out.deep_view() =~= sorted::<T>(all.take(0)));
    for x in it: v
        invariant
            all == v.deep_view(),
            it.seq() == v@,
            n == it.index(),
            out.deep_view() == sorted::<T>(all.take(n)),
    {
        proof {
            assert(x == v@[n]);
            assert(all.take(n + 1).drop_last() =~= all.take(n));
            assert(all.take(n + 1).last() == x.deep_view());
        }
        place(&mut out, x);
        proof {
            n = n + 1;
        }
    }
    assert(all.take(n) =~= all);
    out
}

/// Whether `a` comes no later than `b` in the order of code points.
pub open spec fn at_most(a: Seq<char>, b: Seq<char>) -> bool
    decreases a.len(),
{
    if a.len() == 0 {
        true
    } else if b.len() == 0 {
        false
    } else if a[0] == b[0] {
        at_most(a.drop_first(), b.drop_first())
    } else {
        a[0] < b[0]
    }
}

proof fn lemma_at_most_total(a: Seq<char>, b: Seq<char>)
    ensures
        at_most(a, b) || at_most(b, a),
    decreases a.len(),
{
    if a.len() > 0 && b.len() > 0 && a[0] == b[0] {
        lemma_at_most_total(a.drop_first(), b.drop_first());
    }
}

proof fn lemma_at_most_transitive(a: Seq<char>, b: Seq<char>, c: Seq<char>)
    requires
        at_most(a, b),
        at_most(b, c),
    ensures
        at_most(a, c),
    decreases a.len(),
{
    if a.len() > 0 && a[0] == b[0] && b[0] == c[0] {
        lemma_at_most_transitive(a.drop_first(), b.drop_first(), c.drop_first());
    }
}

impl Ranked for String {
    open spec fn before(a: Seq<char>, b: Seq<char>) -> bool {
        at_most(a, b)
    }

    fn may_precede(&self, other: &Self) -> (r: bool) {
        let a = chars_of(self.as_str());
        let b = chars_of(other.as_str());
        let mut i: usize = 0;
        assert(a@.skip(0) =~= a@);
        assert(b@.skip(0) =~= b@);
        while i < a.len() && i < b.len() && a[i] == b[i]
            invariant
                i <= a@.len(),
                i <= b@.len(),
                at_most(a@, b@) == at_most(a@.skip(i as int), b@.skip(i as int)),
            decreases a@.len() - i,
        {
            assert(a@.skip(i as int).drop_first() =~= a@.skip(i + 1));
            assert(b@.skip(i as int).drop_first() =~= b@.skip(i + 1));
            i = i + 1;
        }
        if i == a.len() {
            true
        } else if i == b.len() {
            false
        } else {
            a[i] < b[i]
        }
    }

    proof fn total(a: Seq<char>, b: Seq<char>) {
        lemma_at_most_total(a, b);
    }

    proof fn transitive(a: Seq<char>, b: Seq<char>, c: Seq<char>) {
        lemma_at_most_transitive(a, b, c);
    }
}

} // verus!
