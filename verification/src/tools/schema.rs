//! Lists of words in argument schemas.
use vstd::prelude::*;

use crate::json::{Json, Tree};

verus! {

/// Words as JSON texts.
pub open spec fn word_trees(words: Seq<Seq<char>>) -> Seq<Tree> {
    Seq::new(words.len(), |i: int| Tree::Text(words[i]))
}

/// Borrowed words as they stand.
pub open spec fn word_views(words: Seq<&'static str>) -> Seq<Seq<char>> {
    Seq::new(words.len(), |i: int| words[i]@)
}

/// A list of words.
pub fn words(list: Vec<&'static str>) -> (r: Json)
    ensures
        r@ == Tree::Array(word_trees(word_views(list@))),
{
    let mut out: Vec<Json> = Vec::new();
    let mut i: usize = 0;
    while i < list.len()
        invariant
            i <= list@.len(),
            out@.len() == i,
            forall|k: int| 0 <= k < i ==> (#[trigger] out@[k])@ == Tree::Text(list@[k]@),
        decreases list@.len() - i,
    {
        out.push(Json::text(list[i]));
        i = i + 1;
    }
    assert(out.deep_view() =~= word_trees(word_views(list@)));
    Json::array(out)
}

} // verus!
