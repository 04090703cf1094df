//! Lines in a buffer of bytes that fills as it may.
use vstd::prelude::*;
use vstd::string::*;

use crate::text::{chars_of, decode_lossy, lemma_span, lemma_span_is, span, text_between, utf8_lossy};

verus! {

/// The length of the first line of a buffer without its line feed, or of the whole buffer where
/// there is no line feed.
pub open spec fn line_length(buf: Seq<u8>) -> int {
    span(buf, 10u8) as int
}

/// Whether a buffer holds a whole line.
pub open spec fn has_line(buf: Seq<u8>) -> bool {
    line_length(buf) < buf.len()
}

/// The bytes of the first line, with its line feed.
pub open spec fn first_line(buf: Seq<u8>) -> Seq<u8> {
    buf.take(line_length(buf) + 1)
}

/// The bytes behind the first line.
pub open spec fn behind_line(buf: Seq<u8>) -> Seq<u8> {
    buf.skip(line_length(buf) + 1)
}

/// A text without the line ends behind it.
pub open spec fn without_line_end(s: Seq<char>) -> Seq<char>
    decreases s.len(),
{
    if s.len() > 0 && (s.last() == '\n' || s.last() == '\r') {
        without_line_end(s.drop_last())
    } else {
        s
    }
}

/// The text of a line, without its line end.
pub open spec fn line_text(bytes: Seq<u8>) -> Seq<char> {
    without_line_end(utf8_lossy(bytes))
}

fn strip_line_end(s: &str) -> (r: String)
    ensures
        r@ == without_line_end(s@),
{
    let v = chars_of(s);
    let mut j: usize = v.len();
    assert(v@.take(j as int) =~= v@);
    while 0 < j && (v[j - 1] == '\n' || v[j - 1] == '\r')
        invariant
            j <= v@.len(),
            without_line_end(v@.take(j as int)) == without_line_end(v@),
        decreases j,
    {
        assert(v@.take(j as int).drop_last() =~= v@.take(j - 1));
        j = j - 1;
    }
    assert(v@.subrange(0, j as int) =~= v@.take(j as int));
    text_between(&v, 0, j)
}

/// Takes the first line out of a buffer, where it holds a whole one.
pub fn take_line(buf: &mut Vec<u8>) -> (r: Option<String>)
    ensures
        match r {
            Some(line) => {
                &&& has_line(old(buf)@)
                &&& line@ == line_text(first_line(old(buf)@))
                &&& final(buf)@ == behind_line(old(buf)@)
            },
            None => !has_line(old(buf)@) && final(buf)@ == old(buf)@,
        },
{
    let ghost all = buf@;
    let mut n: usize = 0;
    while n < buf.len() && buf[n] != 10
        invariant
            n <= buf@.len(),
            buf@ == all,
            all == old(buf)@,
            forall|j: int| 0 <= j < n ==> all[j] != 10u8,
        decreases buf@.len() - n,
    {
        n = n + 1;
    }
    proof {
        lemma_span_is(all, 10u8, n as int);
    }
    if n == buf.len() {
        return None;
    }
    let rest = buf.split_off(n + 1);
    assert(buf@ =~= first_line(all));
    assert(rest@ =~= behind_line(all));
    let text = decode_lossy(buf);
    *buf = rest;
    Some(strip_line_end(text.as_str()))
}

/// Puts bytes behind a buffer.
pub fn extend(buf: &mut Vec<u8>, more: &Vec<u8>)
    ensures
        final(buf)@ == old(buf)@ + more@,
{
    let ghost before = buf@;
    let mut i: usize = 0;
    assert(before + more@.take(0) =~= before);
    while i < more.len()
        invariant
            i <= more@.len(),
            before == old(buf)@,
            buf@ == before + more@.take(i as int),
        decreases more@.len() - i,
    {
        assert(more@.take(i + 1) =~= more@.take(i as int).push(more@[i as int]));
        buf.push(more[i]);
        assert(buf@ =~= before + more@.take(i + 1));
        i = i + 1;
    }
    assert(more@.take(i as int) =~= more@);
}

/// The first line and what is behind it are all of a buffer; the line ends with its line feed and has
/// no other.
pub proof fn lemma_buffer_in_lines(buf: Seq<u8>)
    requires
        has_line(buf),
    ensures
        first_line(buf) + behind_line(buf) == buf,
        first_line(buf).last() == 10u8,
        forall|j: int| 0 <= j < first_line(buf).len() - 1 ==> #[trigger] first_line(buf)[j] != 10u8,
{
    lemma_span(buf, 10u8);
    assert(first_line(buf) + behind_line(buf) =~= buf);
}

/// A buffer without a line feed has no whole line, and one with a line feed has one.
pub proof fn lemma_whole_lines(buf: Seq<u8>)
    ensures
        has_line(buf) <==> buf.contains(10u8),
{
    lemma_span(buf, 10u8);
    if has_line(buf) {
        assert(buf[line_length(buf)] == 10u8);
    }
}

/// The line ends behind a text are taken away, all of them, and nothing else.
pub proof fn lemma_line_ends(s: Seq<char>)
    ensures
        without_line_end(s.push('\n')) == without_line_end(s),
        without_line_end(s.push('\r')) == without_line_end(s),
        s.len() == 0 || (s.last() != '\n' && s.last() != '\r') ==> without_line_end(s) == s,
{
    assert(s.push('\n').drop_last() =~= s);
    assert(s.push('\r').drop_last() =~= s);
}

/// A whole line stays the first line when more bytes follow.
pub proof fn lemma_line_stays(buf: Seq<u8>, more: Seq<u8>)
    requires
        has_line(buf),
    ensures
        has_line(buf + more),
        first_line(buf + more) == first_line(buf),
        behind_line(buf + more) == behind_line(buf) + more,
{
    lemma_span(buf, 10u8);
    let n = line_length(buf);
    assert forall|j: int| 0 <= j < n implies (buf + more)[j] != 10u8 by {
        assert((buf + more)[j] == buf[j]);
    }
    assert((buf + more)[n] == buf[n]);
    lemma_span_is(buf + more, 10u8, n);
    assert(first_line(buf + more) =~= first_line(buf));
    assert(behind_line(buf + more) =~= behind_line(buf) + more);
}

} // verus!
