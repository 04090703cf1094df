//! JSON values, and the text that `serde_json` reads and writes for them.
use vstd::prelude::*;

use crate::duplicate::Duplicate;
use crate::text::same;

verus! {

broadcast use vstd::map::group_map_axioms;

/// A JSON value. An object is a list of members; a later member replaces an earlier one of
/// the same name.
#[derive(Debug)]
pub enum Json {
    Null,
    Bool(bool),
    Number(Number),
    Text(String),
    Array(Vec<Json>),
    Object(Vec<(String, Json)>),
}

/// A JSON number.
#[derive(Debug)]
pub struct Number {
    sort: Sort,
}

#[derive(Debug)]
enum Sort {
    /// A whole number that is not negative.
    Unsigned(u64),
    /// A whole number below zero.
    Negative(i64),
    /// Any other number, in the notation in which it is written.
    Decimal(String),
}

impl Number {
    /// A number is in the one form in which it is read.
    #[verifier::type_invariant]
    spec fn canonical(self) -> bool {
        match self.sort {
            Sort::Unsigned(_) => true,
            Sort::Negative(n) => n < 0,
            Sort::Decimal(s) => notation(s@),
        }
    }

    /// The value that a number stands for.
    pub closed spec fn tree(self) -> Tree {
        match self.sort {
            Sort::Unsigned(n) => Tree::Unsigned(n),
            Sort::Negative(n) => Tree::Negative(n),
            Sort::Decimal(s) => Tree::Decimal(s@),
        }
    }

    /// A whole number that is not negative.
    pub fn unsigned(n: u64) -> (r: Number)
        ensures
            r.tree() == Tree::Unsigned(n),
    {
        Number { sort: Sort::Unsigned(n) }
    }

    /// A whole number.
    pub fn signed(n: i64) -> (r: Number)
        ensures
            r.tree() == (if n < 0 {
                Tree::Negative(n)
            } else {
                Tree::Unsigned(n as u64)
            }),
    {
        if n < 0 {
            Number { sort: Sort::Negative(n) }
        } else {
            Number { sort: Sort::Unsigned(n as u64) }
        }
    }

    /// The number itself, where it is a whole number that is not negative.
    pub fn as_u64(&self) -> (r: Option<u64>)
        ensures
            r == self.tree().number(),
    {
        match &self.sort {
            Sort::Unsigned(n) => Some(*n),
            _ => None,
        }
    }

    /// A copy of the number.
    pub fn copied(&self) -> (r: Number)
        ensures
            r.tree() == self.tree(),
    {
        proof {
            use_type_invariant(self);
        }
        match &self.sort {
            Sort::Unsigned(n) => Number { sort: Sort::Unsigned(*n) },
            Sort::Negative(n) => Number { sort: Sort::Negative(*n) },
            Sort::Decimal(s) => Number { sort: Sort::Decimal(s.clone()) },
        }
    }
}

/// Whether a text is how a number that is not whole is written: it is read as that number.
pub open spec fn notation(s: Seq<char>) -> bool {
    reads_as(s, Tree::Decimal(s))
}

/// What a JSON value stands for: an object maps names to values, in no order.
pub enum Tree {
    Null,
    Bool(bool),
    Unsigned(u64),
    Negative(i64),
    Decimal(Seq<char>),
    Text(Seq<char>),
    Array(Seq<Tree>),
    Object(Map<Seq<char>, Tree>),
}

impl View for Json {
    type V = Tree;

    open spec fn view(&self) -> Tree
        decreases self,
    {
        match self {
            Json::Null => Tree::Null,
            Json::Bool(b) => Tree::Bool(*b),
            Json::Number(n) => n.tree(),
            Json::Text(s) => Tree::Text(s@),
            Json::Array(v) => Tree::Array(elements(v@)),
            Json::Object(v) => Tree::Object(members(v@)),
        }
    }
}

impl DeepView for Json {
    type V = Tree;

    open spec fn deep_view(&self) -> Tree {
        self@
    }
}

/// The values that a list of JSON values stands for.
pub open spec fn elements(s: Seq<Json>) -> Seq<Tree>
    decreases s,
{
    if s.len() == 0 {
        Seq::empty()
    } else {
        elements(s.drop_last()).push(s.last().view())
    }
}

/// The object that a list of members stands for.
pub open spec fn members(s: Seq<(String, Json)>) -> Map<Seq<char>, Tree>
    decreases s,
{
    if s.len() == 0 {
        Map::empty()
    } else {
        members(s.drop_last()).insert(s.last().0@, s.last().1.view())
    }
}

/// The elements of an array are the views of its items.
pub broadcast proof fn lemma_elements(s: Seq<Json>)
    ensures
        #[trigger] elements(s) == Seq::new(s.len(), |i: int| s[i]@),
    decreases s.len(),
{
    let all = Seq::new(s.len(), |i: int| s[i]@);
    if s.len() > 0 {
        let front = s.drop_last();
        lemma_elements(front);
        assert(elements(s) == elements(front).push(s.last()@));
        assert forall|i: int| 0 <= i < s.len() implies elements(s)[i] == all[i] by {
            if i < front.len() {
                assert(front[i] == s[i]);
            }
        }
    }
    assert(elements(s) =~= all);
}

impl Tree {
    /// The member `key` of an object.
    pub open spec fn at(self, key: Seq<char>) -> Option<Tree> {
        match self {
            Tree::Object(m) => if m.dom().contains(key) {
                Some(m[key])
            } else {
                None
            },
            _ => None,
        }
    }

    pub open spec fn text(self) -> Option<Seq<char>> {
        match self {
            Tree::Text(s) => Some(s),
            _ => None,
        }
    }

    pub open spec fn number(self) -> Option<u64> {
        match self {
            Tree::Unsigned(n) => Some(n),
            _ => None,
        }
    }

    pub open spec fn truth(self) -> Option<bool> {
        match self {
            Tree::Bool(b) => Some(b),
            _ => None,
        }
    }

    pub open spec fn list(self) -> Option<Seq<Tree>> {
        match self {
            Tree::Array(s) => Some(s),
            _ => None,
        }
    }

    /// The member `key`, where it is a text.
    pub open spec fn text_at(self, key: Seq<char>) -> Option<Seq<char>> {
        match self.at(key) {
            Some(t) => t.text(),
            None => None,
        }
    }

    /// The member `key`, where it is a whole number that is not negative.
    pub open spec fn number_at(self, key: Seq<char>) -> Option<u64> {
        match self.at(key) {
            Some(t) => t.number(),
            None => None,
        }
    }

    /// The member `key`, where it is a truth value.
    pub open spec fn truth_at(self, key: Seq<char>) -> Option<bool> {
        match self.at(key) {
            Some(t) => t.truth(),
            None => None,
        }
    }

    /// The member `key`, where it is an array.
    pub open spec fn list_at(self, key: Seq<char>) -> Option<Seq<Tree>> {
        match self.at(key) {
            Some(t) => t.list(),
            None => None,
        }
    }

    /// The member `key`, with null in place of a missing one.
    pub open spec fn index(self, key: Seq<char>) -> Tree {
        match self.at(key) {
            Some(t) => t,
            None => Tree::Null,
        }
    }
}

impl Clone for Json {
    fn clone(&self) -> (r: Self)
        ensures
            r@ == self@,
    {
        self.duplicate()
    }
}

impl Duplicate for Json {
    fn duplicate(&self) -> (r: Self)
        decreases self,
    {
        match self {
            Json::Null => Json::Null,
            Json::Bool(b) => Json::Bool(*b),
            Json::Number(n) => Json::Number(n.copied()),
            Json::Text(s) => Json::Text(s.clone()),
            Json::Array(v) => {
                let mut out: Vec<Json> = Vec::new();
                let mut i: usize = 0;
                while i < v.len()
                    invariant
                        i <= v@.len(),
                        *self == Json::Array(*v),
                        elements(out@) == elements(v@.take(i as int)),
                    decreases v@.len() - i,
                {
                    let ghost before = out@;
                    assert(decreases_to!(*self => self->Array_0));
                    assert(decreases_to!(self->Array_0 => v@));
                    assert(decreases_to!(v@ => v@[i as int]));
                    let x = v[i].duplicate();
                    out.push(x);
                    proof {
                        assert(out@.drop_last() =~= before);
                        assert(v@.take(i + 1).drop_last() =~= v@.take(i as int));
                    }
                    i = i + 1;
                }
                assert(v@.take(i as int) =~= v@);
                Json::Array(out)
            },
            Json::Object(v) => {
                let mut out: Vec<(String, Json)> = Vec::new();
                let mut i: usize = 0;
                while i < v.len()
                    invariant
                        i <= v@.len(),
                        *self == Json::Object(*v),
                        members(out@) == members(v@.take(i as int)),
                    decreases v@.len() - i,
                {
                    let ghost before = out@;
                    assert(decreases_to!(*self => self->Object_0));
                    assert(decreases_to!(self->Object_0 => v@));
                    assert(decreases_to!(v@ => v@[i as int]));
                    assert(decreases_to!(v@[i as int] => v@[i as int].1));
                    let x = (v[i].0.clone(), v[i].1.duplicate());
                    out.push(x);
                    proof {
                        assert(out@.drop_last() =~= before);
                        assert(v@.take(i + 1).drop_last() =~= v@.take(i as int));
                    }
                    i = i + 1;
                }
                assert(v@.take(i as int) =~= v@);
                Json::Object(out)
            },
        }
    }
}

proof fn lemma_member(s: Seq<(String, Json)>, i: int)
    requires
        0 <= i < s.len(),
        forall|j: int| i < j < s.len() ==> s[j].0@ != s[i].0@,
    ensures
        members(s).dom().contains(s[i].0@),
        members(s)[s[i].0@] == s[i].1@,
    decreases s.len(),
{
    let front = s.drop_last();
    assert(members(s) == members(front).insert(s.last().0@, s.last().1@));
    if i < s.len() - 1 {
        assert(front[i] == s[i]);
        assert forall|j: int| i < j < front.len() implies front[j].0@ != front[i].0@ by {
            assert(front[j] == s[j]);
        }
        lemma_member(front, i);
        assert(s.last().0@ != s[i].0@);
    }
}

/// Every name in a list of members is in the object, and nothing else.
pub proof fn lemma_member_names(s: Seq<(String, Json)>)
    ensures
        forall|k: Seq<char>| #[trigger]
            members(s).dom().contains(k) == exists|i: int| 0 <= i < s.len() && s[i].0@ == k,
    decreases s.len(),
{
    if s.len() > 0 {
        let front = s.drop_last();
        lemma_member_names(front);
        assert(members(s) == members(front).insert(s.last().0@, s.last().1@));
        assert forall|k: Seq<char>| #[trigger]
            members(s).dom().contains(k) == exists|i: int| 0 <= i < s.len() && s[i].0@ == k by {
            if members(s).dom().contains(k) {
                if k == s.last().0@ {
                    assert(s[s.len() - 1].0@ == k);
                } else {
                    assert(members(front).dom().contains(k));
                    let i = choose|i: int| 0 <= i < front.len() && front[i].0@ == k;
                    assert(s[i].0@ == k);
                }
            }
            if exists|i: int| 0 <= i < s.len() && s[i].0@ == k {
                let i = choose|i: int| 0 <= i < s.len() && s[i].0@ == k;
                if i < front.len() {
                    assert(front[i].0@ == k);
                    assert(members(front).dom().contains(k));
                }
            }
        }
    }
}

proof fn lemma_no_member(s: Seq<(String, Json)>, key: Seq<char>)
    requires
        forall|j: int| 0 <= j < s.len() ==> s[j].0@ != key,
    ensures
        !members(s).dom().contains(key),
    decreases s.len(),
{
    if s.len() > 0 {
        let front = s.drop_last();
        assert forall|j: int| 0 <= j < front.len() implies front[j].0@ != key by {
            assert(front[j] == s[j]);
        }
        lemma_no_member(front, key);
        assert(members(s) == members(front).insert(s.last().0@, s.last().1@));
        assert(s.last().0@ != key);
    }
}

impl Json {
    /// The member `key` of an object.
    pub fn get(&self, key: &str) -> (r: Option<&Json>)
        ensures
            match r {
                Some(j) => self@.at(key@) == Some(j@),
                None => self@.at(key@) is None,
            },
    {
        match self {
            Json::Object(v) => {
                let mut i: usize = v.len();
                while i > 0
                    invariant
                        i <= v@.len(),
                        *self == Json::Object(*v),
                        forall|j: int| i <= j < v@.len() ==> v@[j].0@ != key@,
                    decreases i,
                {
                    i = i - 1;
                    if same(v[i].0.as_str(), key) {
                        proof {
                            lemma_member(v@, i as int);
                        }
                        return Some(&v[i].1);
                    }
                }
                proof {
                    lemma_no_member(v@, key@);
                }
                None
            },
            _ => None,
        }
    }

    /// Whether a value is null.
    pub fn is_null(&self) -> (r: bool)
        ensures
            r == (self@ is Null),
    {
        match self {
            Json::Null => true,
            _ => false,
        }
    }

    /// The text that a value is.
    pub fn as_str(&self) -> (r: Option<&str>)
        ensures
            match r {
                Some(s) => self@.text() == Some(s@),
                None => self@.text() is None,
            },
    {
        match self {
            Json::Text(s) => Some(s.as_str()),
            _ => None,
        }
    }

    /// The whole number that is not negative that a value is.
    pub fn as_u64(&self) -> (r: Option<u64>)
        ensures
            r == self@.number(),
    {
        match self {
            Json::Number(n) => n.as_u64(),
            _ => None,
        }
    }

    /// The truth value that a value is.
    pub fn as_bool(&self) -> (r: Option<bool>)
        ensures
            r == self@.truth(),
    {
        match self {
            Json::Bool(b) => Some(*b),
            _ => None,
        }
    }

    /// The items of an array.
    pub fn as_array(&self) -> (r: Option<&Vec<Json>>)
        ensures
            match r {
                Some(v) => self@.list() == Some(v.deep_view()),
                None => self@.list() is None,
            },
    {
        match self {
            Json::Array(v) => {
                proof {
                    lemma_elements(v@);
                    assert(elements(v@) =~= v.deep_view());
                }
                Some(v)
            },
            _ => None,
        }
    }

    /// The members of an object.
    pub fn as_object(&self) -> (r: Option<&Vec<(String, Json)>>)
        ensures
            match r {
                Some(v) => self@ == Tree::Object(members(v@)),
                None => !(self@ is Object),
            },
    {
        match self {
            Json::Object(v) => Some(v),
            _ => None,
        }
    }

    /// The member `key`, where it is a text.
    pub fn str_at(&self, key: &str) -> (r: Option<&str>)
        ensures
            match r {
                Some(s) => self@.text_at(key@) == Some(s@),
                None => self@.text_at(key@) is None,
            },
    {
        match self.get(key) {
            Some(j) => j.as_str(),
            None => None,
        }
    }

    /// The member `key`, where it is a whole number that is not negative.
    pub fn u64_at(&self, key: &str) -> (r: Option<u64>)
        ensures
            r == self@.number_at(key@),
    {
        match self.get(key) {
            Some(j) => j.as_u64(),
            None => None,
        }
    }

    /// The member `key`, where it is a truth value.
    pub fn bool_at(&self, key: &str) -> (r: Option<bool>)
        ensures
            r == self@.truth_at(key@),
    {
        match self.get(key) {
            Some(j) => j.as_bool(),
            None => None,
        }
    }

    /// The member `key`, where it is an array.
    pub fn array_at(&self, key: &str) -> (r: Option<&Vec<Json>>)
        ensures
            match r {
                Some(v) => self@.list_at(key@) == Some(v.deep_view()),
                None => self@.list_at(key@) is None,
            },
    {
        match self.get(key) {
            Some(j) => j.as_array(),
            None => None,
        }
    }

    /// An object without members.
    pub fn object() -> (r: Json)
        ensures
            r@ == object(),
    {
        Json::Object(Vec::new())
    }

    /// An object with the member `key` set to `value`.
    pub fn with(self, key: &str, value: Json) -> (r: Json)
        requires
            self@ is Object,
        ensures
            r@ == self@.with(key@, value@),
    {
        match self {
            Json::Object(mut v) => {
                let ghost before = v@;
                v.push((key.to_owned(), value));
                assert(v@.drop_last() =~= before);
                Json::Object(v)
            },
            other => other,
        }
    }

    /// A whole number that is not negative.
    pub fn number(n: u64) -> (r: Json)
        ensures
            r@ == Tree::Unsigned(n),
    {
        Json::Number(Number::unsigned(n))
    }

    /// A text.
    pub fn text(s: &str) -> (r: Json)
        ensures
            r@ == Tree::Text(s@),
    {
        Json::Text(s.to_owned())
    }

    /// An array.
    pub fn array(v: Vec<Json>) -> (r: Json)
        ensures
            r@ == Tree::Array(v.deep_view()),
    {
        proof {
            lemma_elements(v@);
            assert(elements(v@) =~= v.deep_view());
        }
        Json::Array(v)
    }

    /// A text, or null where there is none.
    pub fn optional_text(s: Option<String>) -> (r: Json)
        ensures
            r@ == optional_text(s.deep_view()),
    {
        match s {
            Some(t) => Json::Text(t),
            None => Json::Null,
        }
    }
}

/// The object without members.
pub open spec fn object() -> Tree {
    Tree::Object(Map::empty())
}

/// A text, or null where there is none.
pub open spec fn optional_text(s: Option<Seq<char>>) -> Tree {
    match s {
        Some(t) => Tree::Text(t),
        None => Tree::Null,
    }
}

impl Tree {
    /// An object with the member `key` set to `value`.
    pub open spec fn with(self, key: Seq<char>, value: Tree) -> Tree {
        match self {
            Tree::Object(m) => Tree::Object(m.insert(key, value)),
            _ => self,
        }
    }
}

/// A member that was set is there with its value, and the others are as they were.
pub proof fn lemma_member_is_set(t: Tree, key: Seq<char>, value: Tree, other: Seq<char>)
    requires
        t is Object,
    ensures
        t.with(key, value) is Object,
        t.with(key, value).at(key) == Some(value),
        other != key ==> t.with(key, value).at(other) == t.at(other),
        object().at(key) is None,
{
}

// ---------- reading and writing text ----------

/// `serde_json::Value`, whose variants are told apart by [`open`] alone.
#[verifier::external_type_specification]
#[verifier::external_body]
pub struct ExValue(serde_json::Value);

/// What a `serde_json::Value` holds.
pub uninterp spec fn value_tree(v: serde_json::Value) -> Tree;

/// What `serde_json` reads from a text: a value, or the message of its error.
pub uninterp spec fn json_read(text: Seq<char>) -> Result<Tree, Seq<char>>;

/// The compact text that `serde_json` writes for a value.
pub uninterp spec fn json_compact(t: Tree) -> Seq<char>;

/// The indented text that `serde_json` writes for a value.
pub uninterp spec fn json_pretty(t: Tree) -> Seq<char>;

/// A `serde_json::Value` taken apart by one level.
enum Parts {
    Null,
    Bool(bool),
    Unsigned(u64),
    Negative(i64),
    Decimal(String),
    Text(String),
    Array(Vec<serde_json::Value>),
    Object(Vec<(String, serde_json::Value)>),
}

/// The object that a list of named `serde_json::Value`s stands for.
pub open spec fn value_members(s: Seq<(String, serde_json::Value)>) -> Map<Seq<char>, Tree>
    decreases s.len(),
{
    if s.len() == 0 {
        Map::empty()
    } else {
        value_members(s.drop_last()).insert(s.last().0@, value_tree(s.last().1))
    }
}

impl Parts {
    closed spec fn tree(self) -> Tree {
        match self {
            Parts::Null => Tree::Null,
            Parts::Bool(b) => Tree::Bool(b),
            Parts::Unsigned(n) => Tree::Unsigned(n),
            Parts::Negative(n) => Tree::Negative(n),
            Parts::Decimal(s) => Tree::Decimal(s@),
            Parts::Text(s) => Tree::Text(s@),
            Parts::Array(v) => Tree::Array(Seq::new(v@.len(), |i: int| value_tree(v@[i]))),
            Parts::Object(v) => Tree::Object(value_members(v@)),
        }
    }
}

/// Nesting of at most `n` levels.
pub open spec fn nested(t: Tree, n: nat) -> bool
    decreases n,
{
    match t {
        Tree::Array(s) => n > 0 && forall|i: int|
            0 <= i < s.len() ==> nested(#[trigger] s[i], (n - 1) as nat),
        Tree::Object(m) => n > 0 && forall|k: Seq<char>|
            m.dom().contains(k) ==> nested(#[trigger] m[k], (n - 1) as nat),
        _ => true,
    }
}

/// What stays within a nesting stays within a deeper one.
pub proof fn lemma_nested_deeper(t: Tree, n: nat, m: nat)
    requires
        nested(t, n),
        n <= m,
    ensures
        nested(t, m),
    decreases n,
{
    match t {
        Tree::Array(s) => {
            assert forall|i: int| 0 <= i < s.len() implies nested(#[trigger] s[i], (m - 1) as nat) by {
                lemma_nested_deeper(s[i], (n - 1) as nat, (m - 1) as nat);
            }
        },
        Tree::Object(x) => {
            assert forall|k: Seq<char>| x.dom().contains(k) implies nested(
                #[trigger] x[k],
                (m - 1) as nat,
            ) by {
                lemma_nested_deeper(x[k], (n - 1) as nat, (m - 1) as nat);
            }
        },
        _ => {},
    }
}

/// An object stays within a nesting when it gains a member that is nested less deep.
pub broadcast proof fn lemma_nested_with(t: Tree, key: Seq<char>, value: Tree, n: nat)
    requires
        n > 0,
        nested(t, n),
        nested(value, (n - 1) as nat),
    ensures
        #[trigger] nested(t.with(key, value), n),
{
    match t {
        Tree::Object(m) => {
            let after = m.insert(key, value);
            assert forall|k: Seq<char>| after.dom().contains(k) implies nested(
                #[trigger] after[k],
                (n - 1) as nat,
            ) by {
                if k != key {
                    assert(m.dom().contains(k));
                    assert(after[k] == m[k]);
                }
            }
        },
        _ => {},
    }
}

/// Whether a text is read as the value `t`.
pub open spec fn reads_as(text: Seq<char>, t: Tree) -> bool {
    json_read(text) matches Ok(u) && u == t
}

/// `serde_json::from_str` reads a value, or fails with an error that has a message.
#[verifier::external_body]
fn read_value(text: &str) -> (r: Result<serde_json::Value, String>)
    ensures
        match r {
            Ok(v) => json_read(text@) matches Ok(t) && t == value_tree(v),
            Err(m) => json_read(text@) matches Err(e) && e == m@,
        },
{
    serde_json::from_str::<serde_json::Value>(text).map_err(|e| e.to_string())
}

/// `serde_json::Value` shows itself as compact text, which reads back as the same value where that
/// is nested no deeper than `serde_json` reads. No member name is special to `serde_json` as it is
/// built here: its features `raw_value` and `arbitrary_precision` are off.
#[verifier::external_body]
fn write_value(v: &serde_json::Value) -> (s: String)
    ensures
        s@ == json_compact(value_tree(*v)),
        nested(value_tree(*v), 127) ==> reads_as(s@, value_tree(*v)),
{
    v.to_string()
}

/// `serde_json::to_string_pretty` writes a value as indented text, which reads back as the same
/// value where that is nested no deeper than `serde_json` reads. Writing a `serde_json::Value` to
/// a string does not fail. As above, no member name is special.
#[verifier::external_body]
fn write_value_pretty(v: &serde_json::Value) -> (s: String)
    ensures
        s@ == json_pretty(value_tree(*v)),
        nested(value_tree(*v), 127) ==> reads_as(s@, value_tree(*v)),
{
    serde_json::to_string_pretty(v).unwrap_or_default()
}

/// The variants of `serde_json::Value`, with the three sorts of `serde_json::Number` told apart
/// and an object's members listed, each name once.
#[verifier::external_body]
fn open(v: serde_json::Value) -> (p: Parts)
    ensures
        p.tree() == value_tree(v),
        p matches Parts::Negative(n) ==> n < 0,
        p matches Parts::Decimal(s) ==> notation(s@),
        p matches Parts::Object(m) ==> forall|i: int, j: int|
            0 <= i < j < m@.len() ==> m@[i].0@ != m@[j].0@,
{
    match v {
        serde_json::Value::Null => Parts::Null,
        serde_json::Value::Bool(b) => Parts::Bool(b),
        serde_json::Value::Number(n) => match (n.as_u64(), n.as_i64()) {
            (Some(u), _) => Parts::Unsigned(u),
            (None, Some(i)) => Parts::Negative(i),
            (None, None) => Parts::Decimal(n.to_string()),
        },
        serde_json::Value::String(s) => Parts::Text(s),
        serde_json::Value::Array(a) => Parts::Array(a),
        serde_json::Value::Object(m) => Parts::Object(m.into_iter().collect()),
    }
}

/// The variants of `serde_json::Value` put together from their parts. The conversions `From` and
/// `FromIterator` of `serde_json` make them. Which of two members of one name would be kept is not
/// said, so there are none.
#[verifier::external_body]
fn close(p: Parts) -> (v: serde_json::Value)
    requires
        p matches Parts::Negative(n) ==> n < 0,
        p matches Parts::Decimal(s) ==> notation(s@),
        p matches Parts::Object(m) ==> forall|i: int, j: int|
            0 <= i < j < m@.len() ==> m@[i].0@ != m@[j].0@,
    ensures
        value_tree(v) == p.tree(),
{
    match p {
        Parts::Null => serde_json::Value::Null,
        Parts::Bool(b) => serde_json::Value::from(b),
        Parts::Unsigned(n) => serde_json::Value::from(n),
        Parts::Negative(n) => serde_json::Value::from(n),
        Parts::Decimal(s) => serde_json::from_str(&s).unwrap_or_default(),
        Parts::Text(s) => serde_json::Value::from(s),
        Parts::Array(a) => serde_json::Value::from(a),
        Parts::Object(m) => m.into_iter().collect(),
    }
}

proof fn lemma_value_member(s: Seq<(String, serde_json::Value)>, i: int)
    requires
        0 <= i < s.len(),
        forall|a: int, b: int| 0 <= a < b < s.len() ==> s[a].0@ != s[b].0@,
    ensures
        value_members(s).dom().finite(),
        value_members(s).dom().contains(s[i].0@),
        value_members(s)[s[i].0@] == value_tree(s[i].1),
    decreases s.len(),
{
    let front = s.drop_last();
    if i < s.len() - 1 {
        assert(front[i] == s[i]);
        assert forall|a: int, b: int| 0 <= a < b < front.len() implies front[a].0@
            != front[b].0@ by {
            assert(front[a] == s[a] && front[b] == s[b]);
        }
        lemma_value_member(front, i);
        assert(s.last().0@ != s[i].0@);
    }
    lemma_value_members_finite(front);
}

proof fn lemma_value_members_finite(s: Seq<(String, serde_json::Value)>)
    ensures
        value_members(s).dom().finite(),
    decreases s.len(),
{
    if s.len() > 0 {
        lemma_value_members_finite(s.drop_last());
    }
}

/// Turns a `serde_json::Value` into the JSON value that it holds.
fn from_value(v: serde_json::Value) -> (j: Json)
    ensures
        j@ == value_tree(v),
    decreases value_tree(v),
{
    let ghost whole = value_tree(v);
    match open(v) {
        Parts::Null => Json::Null,
        Parts::Bool(b) => Json::Bool(b),
        Parts::Unsigned(n) => Json::Number(Number { sort: Sort::Unsigned(n) }),
        Parts::Negative(n) => Json::Number(Number { sort: Sort::Negative(n) }),
        Parts::Decimal(s) => Json::Number(Number { sort: Sort::Decimal(s) }),
        Parts::Text(s) => Json::Text(s),
        Parts::Array(a) => {
            let ghost all = a@;
            let mut out: Vec<Json> = Vec::new();
            for x in it: a
                invariant
                    it.seq() == all,
                    whole == value_tree(v),
                    whole == Tree::Array(Seq::new(all.len(), |i: int| value_tree(all[i]))),
                    out@.len() == it.index(),
                    forall|i: int| 0 <= i < out@.len() ==> out@[i]@ == value_tree(all[i]),
            {
                proof {
                    let i = out@.len() as int;
                    assert(x == all[i]);
                    assert(decreases_to!(whole => whole->Array_0));
                    assert(decreases_to!(whole->Array_0 => whole->Array_0[i]));
                    assert(whole->Array_0[i] == value_tree(x));
                }
                out.push(from_value(x));
            }
            proof {
                lemma_elements(out@);
                assert(elements(out@) =~= Seq::new(all.len(), |i: int| value_tree(all[i])));
            }
            Json::Array(out)
        },
        Parts::Object(m) => {
            let ghost all = m@;
            let mut out: Vec<(String, Json)> = Vec::new();
            for (name, x) in it: m
                invariant
                    it.seq() == all,
                    whole == value_tree(v),
                    whole == Tree::Object(value_members(all)),
                    forall|a: int, b: int| 0 <= a < b < all.len() ==> all[a].0@ != all[b].0@,
                    out@.len() == it.index(),
                    members(out@) == value_members(all.take(out@.len() as int)),
            {
                let ghost i = out@.len() as int;
                let ghost before = out@;
                proof {
                    assert((name, x) == all[i]);
                    lemma_value_member(all, i);
                    assert(decreases_to!(whole => whole->Object_0));
                    assert(decreases_to!(whole->Object_0 => whole->Object_0[name@]));
                }
                out.push((name, from_value(x)));
                proof {
                    assert(out@.drop_last() =~= before);
                    assert(members(out@) == members(before).insert(name@, out@.last().1@));
                    assert(all.take(i + 1).drop_last() =~= all.take(i));
                    assert(all.take(i + 1).last() == all[i]);
                }
            }
            assert(all.take(out@.len() as int) =~= all);
            Json::Object(out)
        },
    }
}

/// A member in front of others counts where none of them has its name.
proof fn lemma_members_front(x: (String, Json), s: Seq<(String, Json)>)
    ensures
        members(seq![x] + s) == (if members(s).dom().contains(x.0@) {
            members(s)
        } else {
            members(s).insert(x.0@, x.1@)
        }),
    decreases s.len(),
{
    let all = seq![x] + s;
    if s.len() == 0 {
        let none: Seq<(String, Json)> = Seq::empty();
        assert(all.drop_last() =~= none);
        assert(all.last() == x);
        assert(members(all) == members(none).insert(x.0@, x.1@));
    } else {
        let front = s.drop_last();
        assert(all.drop_last() =~= seq![x] + front);
        assert(all.last() == s.last());
        lemma_members_front(x, front);
        assert(members(all) == members(seq![x] + front).insert(s.last().0@, s.last().1@));
        assert(members(s) == members(front).insert(s.last().0@, s.last().1@));
        if members(s).dom().contains(x.0@) {
            assert(members(all) =~= members(s));
        } else {
            assert(members(all) =~= members(s).insert(x.0@, x.1@));
        }
    }
}

proof fn lemma_value_member_names(s: Seq<(String, serde_json::Value)>, name: Seq<char>)
    ensures
        value_members(s).dom().contains(name) == exists|i: int|
            0 <= i < s.len() && (#[trigger] s[i]).0@ == name,
    decreases s.len(),
{
    if s.len() > 0 {
        let front = s.drop_last();
        lemma_value_member_names(front, name);
        if value_members(front).dom().contains(name) {
            let i = choose|i: int| 0 <= i < front.len() && (#[trigger] front[i]).0@ == name;
            assert(s[i].0@ == name);
        }
        if s.last().0@ == name {
            assert(s[s.len() - 1].0@ == name);
        }
        if exists|i: int| 0 <= i < s.len() && (#[trigger] s[i]).0@ == name {
            let i = choose|i: int| 0 <= i < s.len() && (#[trigger] s[i]).0@ == name;
            if i < front.len() {
                assert(front[i].0@ == name);
            }
        }
    }
}

fn has_member(s: &Vec<(String, serde_json::Value)>, name: &str) -> (r: bool)
    ensures
        r == value_members(s@).dom().contains(name@),
{
    proof {
        lemma_value_member_names(s@, name@);
    }
    let mut i: usize = 0;
    while i < s.len()
        invariant
            i <= s@.len(),
            value_members(s@).dom().contains(name@) == exists|k: int|
                0 <= k < s@.len() && (#[trigger] s@[k]).0@ == name@,
            forall|k: int| 0 <= k < i ==> (#[trigger] s@[k]).0@ != name@,
        decreases s@.len() - i,
    {
        if same(s[i].0.as_str(), name) {
            assert(s@[i as int].0@ == name@);
            return true;
        }
        i = i + 1;
    }
    false
}

/// Turns a JSON value into the `serde_json::Value` that holds it. Of two members of one name the
/// later is handed on.
fn to_value(j: &Json) -> (v: serde_json::Value)
    ensures
        value_tree(v) == j@,
    decreases j,
{
    match j {
        Json::Null => close(Parts::Null),
        Json::Bool(b) => close(Parts::Bool(*b)),
        Json::Number(n) => {
            proof {
                use_type_invariant(n);
            }
            match &n.sort {
                Sort::Unsigned(u) => close(Parts::Unsigned(*u)),
                Sort::Negative(i) => close(Parts::Negative(*i)),
                Sort::Decimal(s) => close(Parts::Decimal(s.clone())),
            }
        },
        Json::Text(s) => close(Parts::Text(s.clone())),
        Json::Array(v) => {
            let mut out: Vec<serde_json::Value> = Vec::new();
            let mut i: usize = 0;
            while i < v.len()
                invariant
                    i <= v@.len(),
                    *j == Json::Array(*v),
                    out@.len() == i,
                    forall|k: int| 0 <= k < i ==> value_tree(out@[k]) == v@[k]@,
                decreases v@.len() - i,
            {
                assert(decreases_to!(*j => j->Array_0));
                assert(decreases_to!(j->Array_0 => v@));
                assert(decreases_to!(v@ => v@[i as int]));
                out.push(to_value(&v[i]));
                i = i + 1;
            }
            proof {
                lemma_elements(v@);
                assert(elements(v@) =~= Seq::new(out@.len(), |k: int| value_tree(out@[k])));
            }
            close(Parts::Array(out))
        },
        Json::Object(v) => {
            let mut out: Vec<(String, serde_json::Value)> = Vec::new();
            let mut i: usize = v.len();
            assert(v@.skip(i as int) =~= Seq::empty());
            while i > 0
                invariant
                    i <= v@.len(),
                    *j == Json::Object(*v),
                    value_members(out@) == members(v@.skip(i as int)),
                    forall|a: int, b: int| 0 <= a < b < out@.len() ==> out@[a].0@ != out@[b].0@,
                decreases i,
            {
                i = i - 1;
                let ghost before = out@;
                proof {
                    assert(v@.skip(i as int) =~= seq![v@[i as int]] + v@.skip(i + 1));
                    lemma_members_front(v@[i as int], v@.skip(i + 1));
                }
                if !has_member(&out, v[i].0.as_str()) {
                    proof {
                        lemma_value_member_names(before, v@[i as int].0@);
                        assert(decreases_to!(*j => j->Object_0));
                        assert(decreases_to!(j->Object_0 => v@));
                        assert(decreases_to!(v@ => v@[i as int]));
                        assert(decreases_to!(v@[i as int] => v@[i as int].1));
                    }
                    out.push((v[i].0.clone(), to_value(&v[i].1)));
                    assert(out@.drop_last() =~= before);
                }
            }
            assert(v@.skip(0) =~= v@);
            close(Parts::Object(out))
        },
    }
}

/// Reads a JSON value from a text.
pub fn parse(text: &str) -> (r: Result<Json, String>)
    ensures
        match r {
            Ok(j) => reads_as(text@, j@),
            Err(m) => json_read(text@) matches Err(e) && e == m@,
        },
{
    match read_value(text) {
        Ok(v) => Ok(from_value(v)),
        Err(m) => Err(m),
    }
}

impl Json {
    /// The compact text of a value.
    pub fn to_text(&self) -> (s: String)
        ensures
            s@ == json_compact(self@),
            nested(self@, 127) ==> reads_as(s@, self@),
    {
        write_value(&to_value(self))
    }

    /// The indented text of a value.
    pub fn to_text_pretty(&self) -> (s: String)
        ensures
            s@ == json_pretty(self@),
            nested(self@, 127) ==> reads_as(s@, self@),
    {
        write_value_pretty(&to_value(self))
    }
}

} // verus!
