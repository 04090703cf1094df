//! Values that have a JSON form, from which they are read back as they were.
use vstd::prelude::*;

use crate::duplicate::Duplicate;
use crate::json::{Json, Tree, object, optional_text};

verus! {

/// A value with a JSON form.
pub trait Codec: DeepView + Sized {
    /// The JSON form of a value.
    spec fn tree(v: Self::V) -> Tree;

    /// The value that a JSON value is the form of.
    spec fn read(t: Tree) -> Option<Self::V>;

    /// The JSON form of the value.
    fn to_json(&self) -> (r: Json)
        ensures
            r@ == Self::tree(self.deep_view()),
    ;

    /// Reads a value from its JSON form.
    fn from_json(j: &Json) -> (r: Option<Self>)
        ensures
            r.deep_view() == Self::read(j@),
    ;

    /// A value is read back from its JSON form as it was.
    proof fn reads_back(v: Self::V)
        ensures
            Self::read(Self::tree(v)) == Some(v),
    ;
}

impl Codec for bool {
    open spec fn tree(v: bool) -> Tree {
        Tree::Bool(v)
    }

    open spec fn read(t: Tree) -> Option<bool> {
        t.truth()
    }

    fn to_json(&self) -> (r: Json) {
        Json::Bool(*self)
    }

    fn from_json(j: &Json) -> (r: Option<bool>) {
        let r = j.as_bool();
        assert(r.deep_view() == r);
        r
    }

    proof fn reads_back(v: bool) {
    }
}

impl Codec for u64 {
    open spec fn tree(v: u64) -> Tree {
        Tree::Unsigned(v)
    }

    open spec fn read(t: Tree) -> Option<u64> {
        t.number()
    }

    fn to_json(&self) -> (r: Json) {
        Json::number(*self)
    }

    fn from_json(j: &Json) -> (r: Option<u64>) {
        let r = j.as_u64();
        assert(r.deep_view() == r);
        r
    }

    proof fn reads_back(v: u64) {
    }
}

impl Codec for String {
    open spec fn tree(v: Seq<char>) -> Tree {
        Tree::Text(v)
    }

    open spec fn read(t: Tree) -> Option<Seq<char>> {
        t.text()
    }

    fn to_json(&self) -> (r: Json) {
        Json::text(self.as_str())
    }

    fn from_json(j: &Json) -> (r: Option<String>) {
        match j.as_str() {
            Some(s) => Some(s.to_owned()),
            None => None,
        }
    }

    proof fn reads_back(v: Seq<char>) {
    }
}

impl Codec for Option<String> {
    open spec fn tree(v: Option<Seq<char>>) -> Tree {
        optional_text(v)
    }

    open spec fn read(t: Tree) -> Option<Option<Seq<char>>> {
        match t {
            Tree::Null => Some(None),
            Tree::Text(s) => Some(Some(s)),
            _ => None,
        }
    }

    fn to_json(&self) -> (r: Json) {
        Json::optional_text(self.duplicate())
    }

    fn from_json(j: &Json) -> (r: Option<Option<String>>) {
        if j.is_null() {
            Some(None)
        } else {
            match j.as_str() {
                Some(s) => Some(Some(s.to_owned())),
                None => None,
            }
        }
    }

    proof fn reads_back(v: Option<Seq<char>>) {
    }
}

impl Codec for Json {
    open spec fn tree(v: Tree) -> Tree {
        v
    }

    open spec fn read(t: Tree) -> Option<Tree> {
        Some(t)
    }

    fn to_json(&self) -> (r: Json) {
        self.duplicate()
    }

    fn from_json(j: &Json) -> (r: Option<Json>) {
        Some(j.duplicate())
    }

    proof fn reads_back(v: Tree) {
    }
}

/// The values that JSON values are the forms of: all of them, or nothing.
pub open spec fn all_read<T: Codec>(s: Seq<Tree>) -> Option<Seq<T::V>>
    decreases s.len(),
{
    if s.len() == 0 {
        Some(Seq::empty())
    } else {
        match (all_read::<T>(s.drop_last()), T::read(s.last())) {
            (Some(front), Some(x)) => Some(front.push(x)),
            _ => None,
        }
    }
}

/// The JSON forms of values.
pub open spec fn trees<T: Codec>(s: Seq<T::V>) -> Seq<Tree> {
    Seq::new(s.len(), |i: int| T::tree(s[i]))
}

proof fn lemma_none_read<T: Codec>(s: Seq<Tree>, n: int)
    requires
        0 <= n <= s.len(),
        all_read::<T>(s.take(n)) is None,
    ensures
        all_read::<T>(s) is None,
    decreases s.len() - n,
{
    if n < s.len() {
        assert(s.take(n + 1).drop_last() =~= s.take(n));
        lemma_none_read::<T>(s, n + 1);
    } else {
        assert(s.take(n) =~= s);
    }
}

proof fn lemma_all_read_back<T: Codec>(s: Seq<T::V>)
    ensures
        all_read::<T>(trees::<T>(s)) == Some(s),
    decreases s.len(),
{
    let t = trees::<T>(s);
    if s.len() > 0 {
        let front = s.drop_last();
        lemma_all_read_back::<T>(front);
        T::reads_back(s.last());
        assert(t.drop_last() =~= trees::<T>(front));
        assert(front.push(s.last()) =~= s);
    } else {
        assert(Seq::<T::V>::empty() =~= s);
    }
}

impl<T: Codec> Codec for Vec<T> {
    open spec fn tree(v: Seq<T::V>) -> Tree {
        Tree::Array(trees::<T>(v))
    }

    open spec fn read(t: Tree) -> Option<Seq<T::V>> {
        match t.list() {
            Some(s) => all_read::<T>(s),
            None => None,
        }
    }

    fn to_json(&self) -> (r: Json) {
        let mut out: Vec<Json> = Vec::new();
        let mut i: usize = 0;
        while i < self.len()
            invariant
                i <= self@.len(),
                out@.len() == i,
                forall|k: int|
                    0 <= k < i ==> (#[trigger] out@[k])@ == T::tree(self@[k].deep_view()),
            decreases self@.len() - i,
        {
            out.push(self[i].to_json());
            i = i + 1;
        }
        assert(out.deep_view() =~= trees::<T>(self.deep_view()));
        Json::array(out)
    }

    fn from_json(j: &Json) -> (r: Option<Vec<T>>) {
        let items = match j.as_array() {
            Some(v) => v,
            None => return None,
        };
        let ghost all = items.deep_view();
        let mut out: Vec<T> = Vec::new();
        let mut i: usize = 0;
        assert(out.deep_view() =~= Seq::empty());
        assert(all.take(0) =~= Seq::empty());
        while i < items.len()
            invariant
                i <= items@.len(),
                all == items.deep_view(),
                j@.list() == Some(all),
                all_read::<T>(all.take(i as int)) == Some(out.deep_view()),
            decreases items@.len() - i,
        {
            proof {
                assert(all.take(i + 1).drop_last() =~= all.take(i as int));
                assert(all.take(i + 1).last() == items@[i as int]@);
            }
            let ghost before = out.deep_view();
            match T::from_json(&items[i]) {
                Some(x) => {
                    out.push(x);
                    assert(out.deep_view() =~= before.push(x.deep_view()));
                },
                None => {
                    proof {
                        lemma_none_read::<T>(all, i + 1);
                    }
                    return None;
                },
            }
            i = i + 1;
        }
        assert(all.take(i as int) =~= all);
        Some(out)
    }

    proof fn reads_back(v: Seq<T::V>) {
        lemma_all_read_back::<T>(v);
    }
}

/// The value in the member `key`.
pub open spec fn field<T: Codec>(t: Tree, key: Seq<char>) -> Option<T::V> {
    match t.at(key) {
        Some(x) => T::read(x),
        None => None,
    }
}

/// The value in the member `key`, or `default` where there is no such member.
pub open spec fn field_or<T: Codec>(t: Tree, key: Seq<char>, default: T::V) -> Option<T::V> {
    match t.at(key) {
        Some(x) => T::read(x),
        None => Some(default),
    }
}

/// Reads the value in the member `key`.
pub fn read_field<T: Codec>(j: &Json, key: &str) -> (r: Option<T>)
    ensures
        r.deep_view() == field::<T>(j@, key@),
{
    match j.get(key) {
        Some(x) => T::from_json(x),
        None => None,
    }
}

/// Reads the value in the member `key`, or gives `default` where there is no such member.
pub fn read_field_or<T: Codec>(j: &Json, key: &str, default: T) -> (r: Option<T>)
    ensures
        r.deep_view() == field_or::<T>(j@, key@, default.deep_view()),
{
    match j.get(key) {
        Some(x) => T::from_json(x),
        None => Some(default),
    }
}

/// The object that has the first `n` of the values as members, under the names in their order.
pub open spec fn zipped(names: Seq<Seq<char>>, items: Seq<Tree>, n: nat) -> Tree
    decreases n,
{
    if n == 0 {
        object()
    } else {
        zipped(names, items, (n - 1) as nat).with(names[n - 1], items[n - 1])
    }
}

/// A value with named members. It may also be given as the list of what the members hold, in the
/// order of the names; the last ones may be missing.
pub open spec fn membered(t: Tree, names: Seq<Seq<char>>) -> Tree {
    match t {
        Tree::Array(items) => if items.len() <= names.len() {
            zipped(names, items, items.len())
        } else {
            t
        },
        _ => t,
    }
}

/// A value that one of its members, the tag, tells the kind of. It may also be given as a list: the
/// tag, then what the members of its kind hold, in the order of their names.
pub open spec fn tagged(
    t: Tree,
    key: Seq<char>,
    names: spec_fn(Seq<char>) -> Seq<Seq<char>>,
) -> Tree {
    match t {
        Tree::Array(items) => if items.len() > 0 && items[0] is Text && items.len() - 1 <= names(
            items[0]->Text_0,
        ).len() {
            zipped(names(items[0]->Text_0), items.drop_first(), (items.len() - 1) as nat).with(
                key,
                items[0],
            )
        } else {
            t
        },
        _ => t,
    }
}

/// Names as they stand.
pub open spec fn name_views(names: Seq<&str>) -> Seq<Seq<char>> {
    Seq::new(names.len(), |i: int| names[i]@)
}

fn zip(names: &Vec<&str>, items: &Vec<Json>, from: usize) -> (r: Json)
    requires
        from <= items@.len(),
        items@.len() - from <= names@.len(),
    ensures
        r@ is Object,
        r@ == zipped(
            name_views(names@),
            items.deep_view().skip(from as int),
            (items@.len() - from) as nat,
        ),
{
    let ghost given = name_views(names@);
    let ghost values = items.deep_view().skip(from as int);
    let mut out = Json::object();
    let mut i: usize = from;
    while i < items.len()
        invariant
            from <= i <= items@.len(),
            items@.len() - from <= names@.len(),
            given == name_views(names@),
            values == items.deep_view().skip(from as int),
            out@ is Object,
            out@ == zipped(given, values, (i - from) as nat),
        decreases items@.len() - i,
    {
        assert(values[i - from] == items@[i as int]@);
        assert(given[i - from] == names@[i - from]@);
        out = out.with(names[i - from], items[i].duplicate());
        i = i + 1;
    }
    out
}

/// The object that a list stands for, where a value is a list of no more values than there are
/// names.
pub fn listed(j: &Json, names: &Vec<&str>) -> (r: Option<Json>)
    ensures
        match r {
            Some(m) => m@ == membered(j@, name_views(names@)),
            None => membered(j@, name_views(names@)) == j@,
        },
{
    match j.as_array() {
        Some(items) => if items.len() <= names.len() {
            let m = zip(names, items, 0);
            assert(items.deep_view().skip(0) =~= items.deep_view());
            Some(m)
        } else {
            None
        },
        None => None,
    }
}

/// The text that a list begins with.
pub fn head_text(j: &Json) -> (r: Option<&str>)
    ensures
        match r {
            Some(s) => j@ matches Tree::Array(items) && items.len() > 0 && items[0] == Tree::Text(
                s@,
            ),
            None => !(j@ matches Tree::Array(items) && items.len() > 0 && items[0] is Text),
        },
{
    match j.as_array() {
        Some(items) => if items.len() > 0 {
            assert(items.deep_view()[0] == items@[0]@);
            items[0].as_str()
        } else {
            None
        },
        None => None,
    }
}

/// The object that a list behind a tag stands for, where there are no more values than names.
pub fn listed_behind(j: &Json, key: &str, tag: &str, names: &Vec<&str>) -> (r: Option<Json>)
    requires
        j@ matches Tree::Array(items) && items.len() > 0 && items[0] == Tree::Text(tag@),
    ensures
        match r {
            Some(m) => j@->Array_0.len() - 1 <= names@.len() && m@ == zipped(
                name_views(names@),
                j@->Array_0.drop_first(),
                (j@->Array_0.len() - 1) as nat,
            ).with(key@, Tree::Text(tag@)),
            None => j@->Array_0.len() - 1 > names@.len(),
        },
{
    match j.as_array() {
        Some(items) => if items.len() - 1 <= names.len() {
            let m = zip(names, items, 1);
            assert(items.deep_view().skip(1) =~= items.deep_view().drop_first());
            Some(m.with(key, Json::text(tag)))
        } else {
            None
        },
        None => None,
    }
}

} // verus!
