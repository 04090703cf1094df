//! Slash-separated paths. A leading slash alone makes a path absolute: on a system whose paths begin
//! with drives, such a path counts as relative here.
use vstd::prelude::*;
use vstd::string::*;

use crate::text::{
    begins, chars_of, concat2, same, starts_with, strip_prefix, text_between,
};

verus! {

/// Whether a path is absolute.
pub open spec fn absolute(p: Seq<char>) -> bool {
    p.len() > 0 && p[0] == '/'
}

/// `part` seen from `base`: an absolute path stands for itself, any other is put under `base`.
pub open spec fn under(base: Seq<char>, part: Seq<char>) -> Seq<char> {
    if absolute(part) {
        part
    } else if base.len() == 0 || base.last() == '/' {
        base + part
    } else {
        base + "/"@ + part
    }
}

/// Whether a path is absolute.
pub fn is_absolute(p: &str) -> (r: bool)
    ensures
        r == absolute(p@),
{
    proof {
        reveal_strlit("/");
        assert("/"@ =~= seq!['/']);
        assert(p@.len() > 0 ==> p@.take(1) =~= seq![p@[0]]);
        assert(seq!['/'][0] == '/');
        if crate::text::begins(p@, "/"@) {
            assert(p@.take(1)[0] == '/');
        }
    }
    starts_with(p, "/")
}

/// Puts `part` under `base`, unless it is absolute.
pub fn join(base: &str, part: &str) -> (r: String)
    ensures
        r@ == under(base@, part@),
{
    if is_absolute(part) {
        return part.to_owned();
    }
    let v = chars_of(base);
    let mut s = base.to_owned();
    if v.len() > 0 && v[v.len() - 1] != '/' {
        s.append("/");
    }
    s.append(part);
    s
}

/// A relative path stays under the base: the result begins with the base.
pub proof fn lemma_relative_stays_under(base: Seq<char>, part: Seq<char>)
    requires
        !absolute(part),
    ensures
        base.is_prefix_of(under(base, part)),
{
    assert(base =~= under(base, part).subrange(0, base.len() as int));
}

/// A path without the separators and the parts `.` that it begins with.
pub open spec fn trimmed_front(s: Seq<char>) -> Seq<char>
    decreases s.len(),
{
    if s.len() > 0 && s[0] == '/' {
        trimmed_front(s.skip(1))
    } else if s.len() == 1 && s[0] == '.' {
        Seq::empty()
    } else if s.len() >= 2 && s[0] == '.' && s[1] == '/' {
        trimmed_front(s.skip(2))
    } else {
        s
    }
}

fn trim_front(s: &str) -> (r: String)
    ensures
        r@ == trimmed_front(s@),
{
    let v = chars_of(s);
    let mut i: usize = 0;
    assert(v@.skip(0) =~= v@);
    loop
        invariant
            i <= v@.len(),
            v@ == s@,
            trimmed_front(v@.skip(i as int)) == trimmed_front(v@),
        decreases v@.len() - i,
    {
        let ghost rest = v@.skip(i as int);
        assert(rest.len() > 0 ==> rest[0] == v@[i as int]);
        assert(rest.len() > 1 ==> rest[1] == v@[i + 1]);
        if i < v.len() && v[i] == '/' {
            assert(rest.skip(1) =~= v@.skip(i + 1));
            i = i + 1;
        } else if v.len() - i == 1 && v[i] == '.' {
            let none = String::new();
            assert(none@ =~= Seq::empty());
            return none;
        } else if v.len() - i >= 2 && v[i] == '.' && v[i + 1] == '/' {
            assert(rest.skip(2) =~= v@.skip(i + 2));
            i = i + 2;
        } else {
            assert(v@.subrange(i as int, v@.len() as int) =~= rest);
            return text_between(&v, i, v.len());
        }
    }
}

/// A path seen from a directory that it lies in; any other path stands for itself.
pub open spec fn seen_from(p: Seq<char>, dir: Seq<char>) -> Seq<char> {
    if p == dir {
        ""@
    } else if dir.len() > 0 && dir.last() == '/' && begins(p, dir) {
        trimmed_front(p.skip(dir.len() as int))
    } else if begins(p, dir + "/"@) {
        trimmed_front(p.skip(dir.len() as int + 1))
    } else {
        p
    }
}

/// A path seen from a directory that it lies in.
pub fn relative(p: &str, dir: &str) -> (r: String)
    ensures
        r@ == seen_from(p@, dir@),
{
    if same(p, dir) {
        return "".to_owned();
    }
    let v = chars_of(dir);
    if v.len() > 0 && v[v.len() - 1] == '/' {
        match strip_prefix(p, dir) {
            Some(rest) => {
                return trim_front(rest.as_str());
            },
            None => {},
        }
    }
    let slashed = concat2(dir, "/");
    proof {
        reveal_strlit("/");
    }
    match strip_prefix(p, slashed.as_str()) {
        Some(rest) => trim_front(rest.as_str()),
        None => p.to_owned(),
    }
}

/// What follows the last dot of a file name that does not begin with it.
pub open spec fn extension_of(name: Seq<char>) -> Option<Seq<char>> {
    let n = last_dot(name);
    if n <= 0 || name == ".."@ {
        None
    } else {
        Some(name.skip(n + 1))
    }
}

/// The position of the last dot, or -1.
pub open spec fn last_dot(name: Seq<char>) -> int
    decreases name.len(),
{
    if name.len() == 0 {
        -1
    } else if name.last() == '.' {
        name.len() - 1
    } else {
        last_dot(name.drop_last())
    }
}

/// What precedes the last dot of a file name that does not begin with it, or the whole name.
pub open spec fn stem_of(name: Seq<char>) -> Seq<char> {
    let n = last_dot(name);
    if n <= 0 || name == ".."@ {
        name
    } else {
        name.take(n)
    }
}

fn find_last_dot(v: &Vec<char>) -> (r: usize)
    ensures
        r <= v@.len(),
        r as int == last_dot(v@) + 1,
{
    let mut j: usize = v.len();
    assert(v@.take(j as int) =~= v@);
    while j > 0
        invariant
            j <= v@.len(),
            last_dot(v@.take(j as int)) == last_dot(v@),
        decreases j,
    {
        assert(v@.take(j as int).drop_last() =~= v@.take(j - 1));
        if v[j - 1] == '.' {
            return j;
        }
        j = j - 1;
    }
    0
}

/// The extension of a file name.
pub fn extension(name: &str) -> (r: Option<String>)
    ensures
        r.deep_view() == extension_of(name@),
{
    let v = chars_of(name);
    let n = find_last_dot(&v);
    if n <= 1 || same(name, "..") {
        None
    } else {
        assert(v@.subrange(n as int, v@.len() as int) =~= name@.skip(n as int));
        Some(text_between(&v, n, v.len()))
    }
}

/// The stem of a file name.
pub fn stem(name: &str) -> (r: String)
    ensures
        r@ == stem_of(name@),
{
    let v = chars_of(name);
    let n = find_last_dot(&v);
    if n <= 1 || same(name, "..") {
        name.to_owned()
    } else {
        assert(v@.subrange(0, n - 1) =~= name@.take(n - 1));
        text_between(&v, 0, n - 1)
    }
}

} // verus!
