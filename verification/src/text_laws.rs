//! How the operations on texts relate to the texts that they are given.
use vstd::prelude::*;
use vstd::string::*;

use crate::text::{
    begins, clipped, find, holds, joined, lemma_span_is, line_seq, occurs_at, replaced, trimmed,
    trimmed_end, trimmed_start, truncated, whitespace, without_cr, without_leading,
    without_trailing,
};

verus! {

/// Joining keeps every part, in order, with the separator between neighbours and nowhere else.
pub proof fn lemma_joined_in_parts(a: Seq<Seq<char>>, b: Seq<Seq<char>>, sep: Seq<char>, one: Seq<char>)
    ensures
        joined(seq![one], sep) == one,
        joined(Seq::empty(), sep).len() == 0,
        a.len() > 0 && b.len() > 0 ==> joined(a + b, sep) == joined(a, sep) + sep + joined(b, sep),
    decreases b.len(),
{
    if a.len() > 0 && b.len() == 1 {
        assert((a + b).drop_last() =~= a);
        assert((a + b).last() == b[0]);
    } else if a.len() > 0 && b.len() > 1 {
        let front = b.drop_last();
        lemma_joined_in_parts(a, front, sep, one);
        assert((a + b).drop_last() =~= a + front);
        assert((a + b).last() == b.last());
        assert(joined(a + b, sep) =~= joined(a, sep) + sep + joined(b, sep));
    }
}

/// Whether a text stands in another as lines of its own.
pub open spec fn as_lines_of(whole: Seq<char>, part: Seq<char>, front: Seq<char>, rest: Seq<char>) -> bool {
    &&& whole == front + part + rest
    &&& front.len() == 0 || front.last() == '\n'
    &&& rest.len() == 0 || rest[0] == '\n'
}

/// Every one of the texts that are joined one to a line stands there as lines of its own.
pub proof fn lemma_joined_holds_every_line(a: Seq<Seq<char>>, part: Seq<char>, b: Seq<Seq<char>>)
    ensures
        exists|front: Seq<char>, rest: Seq<char>|
            as_lines_of(joined(a.push(part) + b, "\n"@), part, front, rest),
{
    reveal_strlit("\n");
    let sep = "\n"@;
    let one = seq![part];
    let whole = joined(a.push(part) + b, sep);
    lemma_joined_in_parts(a, one, sep, part);
    assert(a.push(part) =~= a + one);
    let front = if a.len() > 0 {
        joined(a, sep) + sep
    } else {
        Seq::empty()
    };
    if a.len() == 0 {
        assert(a.push(part) =~= one);
    }
    assert(joined(a.push(part), sep) =~= front + part);
    lemma_joined_in_parts(a.push(part), b, sep, part);
    let rest = if b.len() > 0 {
        sep + joined(b, sep)
    } else {
        Seq::empty()
    };
    if b.len() == 0 {
        assert(a.push(part) + b =~= a.push(part));
    }
    assert(whole =~= front + part + rest);
    assert(as_lines_of(whole, part, front, rest));
}

/// Whether a text is made of white space.
pub open spec fn blank_text(s: Seq<char>) -> bool {
    forall|i: int| 0 <= i < s.len() ==> whitespace(#[trigger] s[i])
}

/// Whether no white space stands at either end of a text.
pub open spec fn tight(s: Seq<char>) -> bool {
    s.len() > 0 ==> !whitespace(s[0]) && !whitespace(s.last())
}

proof fn lemma_start_of_blank(pre: Seq<char>, s: Seq<char>)
    requires
        blank_text(pre),
    ensures
        trimmed_start(pre + s) == trimmed_start(s),
    decreases pre.len(),
{
    if pre.len() == 0 {
        assert(pre + s =~= s);
    } else {
        let rest = pre.drop_first();
        assert forall|i: int| 0 <= i < rest.len() implies whitespace(#[trigger] rest[i]) by {
            assert(rest[i] == pre[i + 1]);
        }
        lemma_start_of_blank(rest, s);
        assert((pre + s)[0] == pre[0]);
        assert((pre + s).drop_first() =~= rest + s);
    }
}

proof fn lemma_end_of_blank(s: Seq<char>, post: Seq<char>)
    requires
        blank_text(post),
    ensures
        trimmed_end(s + post) == trimmed_end(s),
    decreases post.len(),
{
    if post.len() == 0 {
        assert(s + post =~= s);
    } else {
        let rest = post.drop_last();
        assert forall|i: int| 0 <= i < rest.len() implies whitespace(#[trigger] rest[i]) by {
            assert(rest[i] == post[i]);
        }
        lemma_end_of_blank(s, rest);
        assert((s + post).last() == post[post.len() - 1]);
        assert((s + post).drop_last() =~= s + rest);
    }
}

/// Trimming takes away the white space at both ends, all of it, and nothing else.
pub proof fn lemma_trimmed_is_the_core(pre: Seq<char>, core: Seq<char>, post: Seq<char>)
    requires
        blank_text(pre),
        blank_text(post),
        tight(core),
    ensures
        trimmed(pre + core + post) == core,
{
    assert(pre + core + post =~= pre + (core + post));
    lemma_start_of_blank(pre, core + post);
    if core.len() > 0 {
        assert((core + post)[0] == core[0]);
        assert(trimmed_start(core + post) == core + post);
        lemma_end_of_blank(core, post);
    } else {
        assert(core + post =~= post);
        lemma_start_of_blank(post, Seq::empty());
        assert(post + Seq::<char>::empty() =~= post);
        assert(trimmed_start(Seq::<char>::empty()) == Seq::<char>::empty());
        assert(trimmed_start(post) == Seq::<char>::empty());
        assert(trimmed_end(Seq::<char>::empty()) == Seq::<char>::empty());
        assert(core =~= Seq::empty());
    }
}

/// A text in which something is not white space is not empty without the white space at its ends.
pub proof fn lemma_trimmed_blank(s: Seq<char>)
    requires
        !blank_text(s),
    ensures
        trimmed(s).len() > 0,
{
    let k = choose|k: int| 0 <= k < s.len() && !whitespace(#[trigger] s[k]);
    lemma_start_keeps(s, k);
    let t = trimmed_start(s);
    let m = choose|m: int| 0 <= m < t.len() && !whitespace(#[trigger] t[m]);
    lemma_end_keeps(t, m);
}

proof fn lemma_start_keeps(s: Seq<char>, k: int)
    requires
        0 <= k < s.len(),
        !whitespace(s[k]),
    ensures
        exists|m: int| 0 <= m < trimmed_start(s).len() && !whitespace(#[trigger] trimmed_start(s)[m]),
    decreases s.len(),
{
    if whitespace(s[0]) {
        assert(s.drop_first()[k - 1] == s[k]);
        lemma_start_keeps(s.drop_first(), k - 1);
        let t = trimmed_start(s.drop_first());
        let m = choose|m: int| 0 <= m < t.len() && !whitespace(#[trigger] t[m]);
        assert(!whitespace(trimmed_start(s)[m]));
    } else {
        assert(trimmed_start(s)[k] == s[k]);
    }
}

proof fn lemma_end_keeps(s: Seq<char>, k: int)
    requires
        0 <= k < s.len(),
        !whitespace(s[k]),
    ensures
        trimmed_end(s).len() > 0,
    decreases s.len(),
{
    if whitespace(s.last()) {
        assert(k < s.len() - 1);
        assert(s.drop_last()[k] == s[k]);
        lemma_end_keeps(s.drop_last(), k);
    }
}

/// The white space in front of a text is taken away, and the text stays.
pub proof fn lemma_start_is_bare(pre: Seq<char>, s: Seq<char>)
    requires
        blank_text(pre),
        s.len() > 0,
        !whitespace(s[0]),
    ensures
        trimmed_start(pre + s) == s,
{
    lemma_start_of_blank(pre, s);
}

/// What a text holds is still held where something stands in front of it.
pub proof fn lemma_held_behind(front: Seq<char>, s: Seq<char>, w: Seq<char>)
    requires
        holds(s, w),
    ensures
        holds(front + s, w),
{
    let k = choose|k: int| occurs_at(s, w, k);
    let n = front.len() as int;
    assert((front + s).subrange(n + k, n + k + w.len()) =~= s.subrange(k, k + w.len()));
    assert(occurs_at(front + s, w, n + k));
}

/// What a text holds is still held where something stands behind it.
pub proof fn lemma_held_in_front(s: Seq<char>, behind: Seq<char>, w: Seq<char>)
    requires
        holds(s, w),
    ensures
        holds(s + behind, w),
{
    let k = choose|k: int| occurs_at(s, w, k);
    assert((s + behind).subrange(k, k + w.len()) =~= s.subrange(k, k + w.len()));
    assert(occurs_at(s + behind, w, k));
}

/// A text holds each of its parts.
pub proof fn lemma_part_is_held(front: Seq<char>, part: Seq<char>, rest: Seq<char>)
    ensures
        holds(front + part + rest, part),
{
    let n = front.len() as int;
    let s = front + part + rest;
    assert(s.subrange(n, n + part.len()) =~= part);
    assert(occurs_at(s, part, n));
}

/// What is found is the first place from the given one on where a text stands; where nothing is
/// found it stands nowhere from there on.
pub proof fn lemma_find_is_first(s: Seq<char>, p: Seq<char>, i: int)
    requires
        0 <= i,
    ensures
        match find(s, p, i) {
            Some(k) => i <= k && occurs_at(s, p, k) && forall|j: int|
                i <= j < k ==> !#[trigger] occurs_at(s, p, j),
            None => forall|j: int| i <= j ==> !#[trigger] occurs_at(s, p, j),
        },
    decreases s.len() - i + 1,
{
    if i + p.len() <= s.len() && !occurs_at(s, p, i) {
        lemma_find_is_first(s, p, i + 1);
    }
}

/// The first place where a text stands is what is found.
pub proof fn lemma_first_is_found(s: Seq<char>, p: Seq<char>, i: int, k: int)
    requires
        0 <= i <= k,
        occurs_at(s, p, k),
        forall|j: int| i <= j < k ==> !#[trigger] occurs_at(s, p, j),
    ensures
        find(s, p, i) == Some(k),
{
    lemma_find_is_first(s, p, i);
    assert(occurs_at(s, p, k));
    match find(s, p, i) {
        Some(m) => {
            if m < k {
                assert(!occurs_at(s, p, m));
            }
        },
        None => {},
    }
}

proof fn lemma_occurs_behind(s: Seq<char>, p: Seq<char>, j: int)
    requires
        s.len() > 0,
        0 <= j,
    ensures
        occurs_at(s.drop_first(), p, j) == occurs_at(s, p, j + 1),
        begins(s, p) == occurs_at(s, p, 0),
{
    let t = s.drop_first();
    if j + p.len() <= t.len() {
        assert(s.subrange(j + 1, j + 1 + p.len()) =~= t.subrange(j, j + p.len()));
    }
    if p.len() <= s.len() {
        assert(s.subrange(0, p.len() as int) =~= s.take(p.len() as int));
    }
}

/// Nothing is replaced in a text that does not hold what is looked for.
pub proof fn lemma_nothing_replaced(s: Seq<char>, p: Seq<char>, r: Seq<char>)
    requires
        !holds(s, p),
    ensures
        replaced(s, p, r) == s,
    decreases s.len(),
{
    if s.len() > 0 && p.len() > 0 {
        let rest = s.drop_first();
        assert forall|j: int| !occurs_at(rest, p, j) by {
            if j >= 0 {
                lemma_occurs_behind(s, p, j);
                assert(!occurs_at(s, p, j + 1));
            }
        }
        lemma_nothing_replaced(rest, p, r);
        lemma_occurs_behind(s, p, 0);
        assert(!occurs_at(s, p, 0));
        assert(seq![s[0]] + rest =~= s);
    }
}

/// Where a text stands for the first time it is replaced, what is in front stays, and the rest is
/// gone on with behind it.
pub proof fn lemma_replaced_in_place(a: Seq<char>, p: Seq<char>, b: Seq<char>, r: Seq<char>)
    requires
        p.len() > 0,
        forall|j: int| 0 <= j < a.len() ==> !#[trigger] occurs_at(a + p + b, p, j),
    ensures
        replaced(a + p + b, p, r) == a + r + replaced(b, p, r),
    decreases a.len(),
{
    let s = a + p + b;
    if a.len() == 0 {
        assert(s.take(p.len() as int) =~= p);
        assert(s.skip(p.len() as int) =~= b);
        assert(a + r + replaced(b, p, r) =~= r + replaced(b, p, r));
    } else {
        let rest = a.drop_first();
        let t = rest + p + b;
        assert(s.drop_first() =~= t);
        assert forall|j: int| 0 <= j < rest.len() implies !#[trigger] occurs_at(t, p, j) by {
            lemma_occurs_behind(s, p, j);
            assert(!occurs_at(s, p, j + 1));
        }
        lemma_replaced_in_place(rest, p, b, r);
        lemma_occurs_behind(s, p, 0);
        assert(!occurs_at(s, p, 0));
        assert(s[0] == a[0]);
        assert(replaced(s, p, r) == seq![s[0]] + replaced(t, p, r));
        assert(seq![a[0]] + (rest + r + replaced(b, p, r)) =~= a + r + replaced(b, p, r));
    }
}

/// A text is split at its line feeds, and a carriage return in front of one belongs to it. What
/// stands behind the last line feed is a line where it is not empty.
pub proof fn lemma_lines_are_split(line: Seq<char>, rest: Seq<char>)
    requires
        forall|i: int| 0 <= i < line.len() ==> line[i] != '\n',
    ensures
        line.len() == 0 || line.last() != '\r' ==> line_seq(line.push('\n') + rest) == seq![line]
            + line_seq(rest),
        line_seq(line.push('\r').push('\n') + rest) == seq![line] + line_seq(rest),
        line.len() > 0 ==> line_seq(line) == seq![line],
        line_seq(Seq::empty()).len() == 0,
{
    let n = line.len() as int;
    let s = line.push('\n') + rest;
    assert forall|j: int| 0 <= j < n implies s[j] != '\n' by {
        assert(s[j] == line[j]);
    }
    assert(s[n] == '\n');
    lemma_span_is(s, '\n', n);
    assert(s.take(n) =~= line);
    assert(s.skip(n + 1) =~= rest);
    let c = line.push('\r');
    let u = c.push('\n') + rest;
    assert forall|j: int| 0 <= j < n + 1 implies u[j] != '\n' by {
        assert(u[j] == c[j]);
        if j < n {
            assert(c[j] == line[j]);
        }
    }
    assert(u[n + 1] == '\n');
    lemma_span_is(u, '\n', n + 1);
    assert(u.take(n + 1) =~= c);
    assert(without_cr(c) =~= line);
    assert(u.skip(n + 2) =~= rest);
    lemma_span_is(line, '\n', n);
}

/// A text is cut behind its first characters, and only where it is longer; a cut that is marked
/// ends with an ellipsis.
pub proof fn lemma_cut_texts(s: Seq<char>, n: nat)
    ensures
        s.len() <= n ==> clipped(s, n) == s && truncated(s, n) == s,
        s.len() > n ==> clipped(s, n).len() == n && clipped(s, n).is_prefix_of(s),
        s.len() > n ==> truncated(s, n).len() == n + 1 && truncated(s, n).last() == '…'
            && truncated(s, n).drop_last() == clipped(s, n),
{
    reveal_strlit("…");
    if s.len() > n {
        assert(clipped(s, n) =~= s.subrange(0, n as int));
        assert(truncated(s, n).drop_last() =~= clipped(s, n));
    }
}

/// Copies of a character are taken away at one end of a text, all of them, and nothing else.
pub proof fn lemma_ends_are_bare(s: Seq<char>, c: char)
    ensures
        s.len() == 0 || s[0] != c ==> without_leading(s, c) == s,
        without_leading(seq![c] + s, c) == without_leading(s, c),
        s.len() == 0 || s.last() != c ==> without_trailing(s, c) == s,
        without_trailing(s.push(c), c) == without_trailing(s, c),
{
    assert((seq![c] + s).drop_first() =~= s);
    assert(s.push(c).drop_last() =~= s);
}

} // verus!
