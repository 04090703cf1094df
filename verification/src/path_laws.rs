//! How paths are put together and taken apart.
use vstd::prelude::*;
use vstd::string::*;

use crate::path::{absolute, extension_of, last_dot, seen_from, stem_of, under};
use crate::text::begins;

verus! {

proof fn lemma_last_dot(name: Seq<char>, ending: Seq<char>)
    requires
        !ending.contains('.'),
    ensures
        last_dot(name + "."@ + ending) == name.len(),
    decreases ending.len(),
{
    reveal_strlit(".");
    let s = name + "."@ + ending;
    if ending.len() == 0 {
        assert(s.last() == '.');
    } else {
        let front = ending.drop_last();
        assert(s.last() == ending.last());
        assert(ending.contains(ending.last()));
        assert(!front.contains('.')) by {
            if front.contains('.') {
                let k = choose|k: int| 0 <= k < front.len() && front[k] == '.';
                assert(ending[k] == '.');
            }
        }
        assert(s.drop_last() =~= name + "."@ + front);
        lemma_last_dot(name, front);
    }
}

/// A file name is parted at its last dot, where something stands before it and behind it.
pub proof fn lemma_endings(name: Seq<char>, ending: Seq<char>)
    requires
        name.len() > 0,
        ending.len() > 0,
        !ending.contains('.'),
    ensures
        extension_of(name + "."@ + ending) == Some(ending),
        stem_of(name + "."@ + ending) == name,
{
    reveal_strlit(".");
    reveal_strlit("..");
    lemma_last_dot(name, ending);
    let s = name + "."@ + ending;
    assert(s.len() > 2);
    assert(s.skip(name.len() as int + 1) =~= ending);
    assert(s.take(name.len() as int) =~= name);
}

/// A relative path lies below the working directory and ends as it was given; an absolute one stands
/// for itself. What lies below a directory is seen from there as it was put.
pub proof fn lemma_paths(base: Seq<char>, part: Seq<char>)
    ensures
        absolute(part) ==> under(base, part) == part,
        !absolute(part) ==> begins(under(base, part), base) && under(
            base,
            part,
        ).skip(under(base, part).len() - part.len()) == part,
        !absolute(part) && base.len() > 0 && base.last() != '/' ==> under(base, part)
            == base + seq!['/'] + part,
        base.len() > 0 && base.last() != '/' && part.len() > 0 && part[0] != '/' && part[0] != '.'
            ==> seen_from(under(base, part), base) == part,
{
    reveal_strlit("/");
    reveal_strlit("");
    let whole = under(base, part);
    if !absolute(part) {
        assert(whole.take(base.len() as int) =~= base);
        assert(whole.skip(whole.len() - part.len()) =~= part);
        if base.len() > 0 && base.last() != '/' {
            assert(whole =~= base + seq!['/'] + part);
            assert(whole.take(base.len() as int + 1) =~= base + "/"@);
            assert(whole.skip(base.len() as int + 1) =~= part);
            assert(whole.len() > base.len());
        }
    }
}

} // verus!
