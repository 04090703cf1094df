//! The store of sessions, kept in memory or in one file per session.
use vstd::prelude::*;
use vstd::set_lib::{lemma_int_range, lemma_len_subset, set_int_range};
use vstd::string::*;

use crate::duplicate::Duplicate;
use crate::json::json_pretty;
use crate::order::{Ranked, sort, sorted};
use crate::path;
use crate::session::ids::{IdKind, Ids, after, id_text, later, lemma_ids_distinct, next_id};
use crate::session::log::{
    MetaView, Session, SessionMeta, SessionView, fresh, meta_of, record_of, session_of,
};
use crate::session::record::{log_nested, read_record, record_in, record_tree};
use crate::text::{concat2, concat3, lemma_span, lemma_span_is, same, span};

verus! {

/// A file to write.
#[derive(Debug)]
pub struct FileWrite {
    pub path: String,
    pub text: String,
}

/// What a file to write stands for.
pub struct WriteView {
    pub path: Seq<char>,
    pub text: Seq<char>,
}

impl View for FileWrite {
    type V = WriteView;

    open spec fn view(&self) -> WriteView {
        WriteView { path: self.path@, text: self.text@ }
    }
}

impl DeepView for FileWrite {
    type V = WriteView;

    open spec fn deep_view(&self) -> WriteView {
        self@
    }
}

/// A session that was just created.
#[derive(Debug)]
pub struct Created {
    pub id: String,
    /// The file in which it is to be kept.
    pub save: Option<FileWrite>,
}

/// A registry of sessions, kept in a directory where there is one.
#[derive(Debug)]
pub struct SessionStore {
    sessions: Vec<Session>,
    observed: bool,
    dir: Option<String>,
    home: String,
}

/// What a store stands for.
#[verifier::ext_equal]
pub struct StoreView {
    pub sessions: Seq<SessionView>,
    /// Whether its sessions are observed.
    pub observed: bool,
    pub dir: Option<Seq<char>>,
    pub home: Seq<char>,
}

impl View for SessionStore {
    type V = StoreView;

    closed spec fn view(&self) -> StoreView {
        StoreView {
            sessions: self.sessions.deep_view(),
            observed: self.observed,
            dir: self.dir.deep_view(),
            home: self.home@,
        }
    }
}

/// The identities of sessions.
pub open spec fn session_ids(s: Seq<SessionView>) -> Seq<Seq<char>> {
    Seq::new(s.len(), |i: int| s[i].id)
}

/// Where the session of the given identity stands, or the number of sessions.
pub open spec fn position(s: Seq<SessionView>, id: Seq<char>) -> int {
    span(session_ids(s), id) as int
}

/// The session of the given identity.
pub open spec fn session_at(s: Seq<SessionView>, id: Seq<char>) -> Option<SessionView> {
    if position(s, id) < s.len() {
        Some(s[position(s, id)])
    } else {
        None
    }
}

/// The sessions with one more, in the place of an earlier one of the same identity.
pub open spec fn inserted(s: Seq<SessionView>, x: SessionView) -> Seq<SessionView> {
    if position(s, x.id) < s.len() {
        s.update(position(s, x.id), x)
    } else {
        s.push(x)
    }
}

/// The sessions of other identities.
pub open spec fn without(s: Seq<SessionView>, id: Seq<char>) -> Seq<SessionView> {
    s.filter(|x: SessionView| x.id != id)
}

/// Whether no two sessions have one identity.
pub open spec fn distinct(s: Seq<SessionView>) -> bool {
    forall|i: int, j: int| 0 <= i < j < s.len() ==> (#[trigger] s[i]).id != (#[trigger] s[j]).id
}

/// Whether the identity with number `n` is that of a session.
pub open spec fn taken(s: Seq<SessionView>, n: u64) -> bool {
    session_at(s, id_text(IdKind::Session, n)) is Some
}

/// The first number from `n` on that is not taken, among `left` numbers; else the one behind them.
pub open spec fn free_within(s: Seq<SessionView>, n: u64, left: nat) -> u64
    decreases left,
{
    if left == 0 || !taken(s, n) {
        n
    } else {
        free_within(s, after(n), (left - 1) as nat)
    }
}

/// The first number from `n` on that is not taken. It is found among as many numbers as there are
/// sessions, or is the one behind them.
pub open spec fn free_number(s: Seq<SessionView>, n: u64) -> u64 {
    free_within(s, n, s.len())
}

/// The identity of the next session.
pub open spec fn new_session_id(s: Seq<SessionView>, n: u64) -> Seq<char> {
    id_text(IdKind::Session, free_number(s, n))
}

/// The metadata of sessions.
pub open spec fn metas(s: Seq<SessionView>) -> Seq<MetaView> {
    Seq::new(s.len(), |i: int| meta_of(s[i]))
}

/// The name of the file of a session.
pub open spec fn file_name(id: Seq<char>) -> Seq<char> {
    id + ".json"@
}

/// The file in which a session is kept, where there is a directory.
pub open spec fn saved(dir: Option<Seq<char>>, s: SessionView) -> Option<WriteView> {
    match dir {
        Some(d) => Some(
            WriteView {
                path: path::under(d, file_name(s.id)),
                text: json_pretty(record_tree(record_of(s))),
            },
        ),
        None => None,
    }
}

/// The sessions after one more directory entry: a name and the text, where it can be read. Only
/// what is a JSON file and holds a session counts.
pub open spec fn with_entry(
    s: Seq<SessionView>,
    name: Seq<char>,
    text: Option<Seq<char>>,
    observed: bool,
    home: Seq<char>,
) -> Seq<SessionView> {
    if path::extension_of(name) == Some("json"@) && text is Some && record_in(text->0) is Some {
        inserted(s, session_of(record_in(text->0)->0, observed, home))
    } else {
        s
    }
}

/// The sessions that directory entries hold.
pub open spec fn loaded(
    entries: Seq<(Seq<char>, Option<Seq<char>>)>,
    observed: bool,
    home: Seq<char>,
) -> Seq<SessionView>
    decreases entries.len(),
{
    if entries.len() == 0 {
        Seq::empty()
    } else {
        with_entry(
            loaded(entries.drop_last(), observed, home),
            entries.last().0,
            entries.last().1,
            observed,
            home,
        )
    }
}

impl Ranked for SessionMeta {
    open spec fn before(a: MetaView, b: MetaView) -> bool {
        a.created_at <= b.created_at
    }

    fn may_precede(&self, other: &Self) -> (r: bool) {
        self.created_at <= other.created_at
    }

    proof fn total(a: MetaView, b: MetaView) {
    }

    proof fn transitive(a: MetaView, b: MetaView, c: MetaView) {
    }
}

impl SessionStore {
    /// A store in memory only.
    pub fn new(observed: bool, home: &str) -> (r: SessionStore)
        ensures
            r@ == (StoreView { sessions: Seq::empty(), observed, dir: None, home: home@ }),
    {
        let r = SessionStore { sessions: Vec::new(), observed, dir: None, home: home.to_owned() };
        assert(r.sessions.deep_view() =~= Seq::empty());
        r
    }

    /// A store kept in `dir`, with the sessions that the entries of the directory hold.
    pub fn persistent(
        dir: &str,
        entries: &Vec<(String, Option<String>)>,
        observed: bool,
        home: &str,
    ) -> (r: SessionStore)
        ensures
            r@ == (StoreView {
                sessions: loaded(entries.deep_view(), observed, home@),
                observed,
                dir: Some(dir@),
                home: home@,
            }),
    {
        let mut store = SessionStore::new(observed, home);
        store.dir = Some(dir.to_owned());
        store.load_all(entries);
        store
    }

    fn load_all(&mut self, entries: &Vec<(String, Option<String>)>)
        requires
            old(self)@.sessions == Seq::<SessionView>::empty(),
        ensures
            final(self)@ == (StoreView {
                sessions: loaded(entries.deep_view(), old(self)@.observed, old(self)@.home),
                ..old(self)@
            }),
    {
        let ghost before = self@;
        let ghost all = entries.deep_view();
        let mut i: usize = 0;
        assert(all.take(0) =~= Seq::empty());
        while i < entries.len()
            invariant
                i <= entries@.len(),
                all == entries.deep_view(),
                before == old(self)@,
                self@ == (StoreView {
                    sessions: loaded(all.take(i as int), before.observed, before.home),
                    ..before
                }),
            decreases entries@.len() - i,
        {
            proof {
                assert(all.take(i + 1).drop_last() =~= all.take(i as int));
                assert(all.take(i + 1).last() == entries@[i as int].deep_view());
            }
            let json = match path::extension(entries[i].0.as_str()) {
                Some(e) => same(e.as_str(), "json"),
                None => false,
            };
            if json {
                match &entries[i].1 {
                    Some(text) => {
                        match read_record(text.as_str()) {
                            Some(record) => {
                                let s = Session::from_record(
                                    record,
                                    self.observed,
                                    self.home.as_str(),
                                );
                                self.insert(s);
                            },
                            None => {},
                        }
                    },
                    None => {},
                }
            }
            i = i + 1;
        }
        assert(all.take(i as int) =~= all);
    }

    fn find(&self, id: &str) -> (r: usize)
        ensures
            r == position(self@.sessions, id@),
            r <= self.sessions@.len(),
            r < self.sessions@.len() ==> self.sessions@[r as int]@.id == id@,
    {
        let ghost names = session_ids(self@.sessions);
        let mut i: usize = 0;
        while i < self.sessions.len()
            invariant
                i <= self.sessions@.len(),
                names == session_ids(self@.sessions),
                forall|j: int| 0 <= j < i ==> names[j] != id@,
            decreases self.sessions@.len() - i,
        {
            assert(names[i as int] == self.sessions@[i as int]@.id);
            if same(self.sessions[i].id(), id) {
                proof {
                    lemma_span_is(names, id@, i as int);
                }
                return i;
            }
            i = i + 1;
        }
        proof {
            lemma_span_is(names, id@, i as int);
        }
        i
    }

    /// Puts a session into the store, in the place of an earlier one of the same identity.
    pub fn insert(&mut self, session: Session)
        ensures
            final(self)@ == (StoreView {
                sessions: inserted(old(self)@.sessions, session@),
                ..old(self)@
            }),
    {
        let ghost before = self@;
        let i = self.find(session.id());
        if i < self.sessions.len() {
            self.sessions.set(i, session);
        } else {
            self.sessions.push(session);
        }
        assert(self.sessions.deep_view() =~= inserted(before.sessions, session@));
    }

    /// Creates a session with a fresh identity and the default title.
    pub fn create_fresh(&mut self, ids: &mut Ids, now: u64) -> (r: Created)
        ensures
            ({
                let s = fresh(
                    new_session_id(old(self)@.sessions, old(ids).at()),
                    "新会话"@,
                    old(self)@.observed,
                    old(self)@.home,
                    now,
                );
                &&& r.id@ == s.id
                &&& r.save.deep_view() == saved(old(self)@.dir, s)
                &&& final(self)@ == (StoreView {
                    sessions: inserted(old(self)@.sessions, s),
                    ..old(self)@
                })
            }),
            session_at(old(self)@.sessions, r.id@) is None,
            final(ids).at() == after(free_number(old(self)@.sessions, old(ids).at())),
    {
        self.create(ids, "新会话", now)
    }

    /// Creates a session with a fresh identity and the given title.
    pub fn create(&mut self, ids: &mut Ids, title: &str, now: u64) -> (r: Created)
        ensures
            ({
                let s = fresh(
                    new_session_id(old(self)@.sessions, old(ids).at()),
                    title@,
                    old(self)@.observed,
                    old(self)@.home,
                    now,
                );
                &&& r.id@ == s.id
                &&& r.save.deep_view() == saved(old(self)@.dir, s)
                &&& final(self)@ == (StoreView {
                    sessions: inserted(old(self)@.sessions, s),
                    ..old(self)@
                })
            }),
            session_at(old(self)@.sessions, r.id@) is None,
            final(ids).at() == after(free_number(old(self)@.sessions, old(ids).at())),
    {
        let ghost all = self@.sessions;
        let ghost first = ids.at();
        let ghost mut n = ids.at();
        let mut id = next_id(ids, IdKind::Session);
        let mut left: usize = self.sessions.len();
        while left > 0 && self.find(id.as_str()) < self.sessions.len()
            invariant
                self@ == old(self)@,
                all == self@.sessions,
                all.len() == self.sessions@.len(),
                id@ == id_text(IdKind::Session, n),
                ids.at() == after(n),
                free_within(all, n, left as nat) == free_within(all, first, all.len()),
            decreases left,
        {
            proof {
                n = after(n);
            }
            id = next_id(ids, IdKind::Session);
            left = left - 1;
        }
        proof {
            assert(n == free_number(all, first));
            lemma_number_is_free(all, first);
        }
        let session = Session::with_title(
            id.as_str(),
            title,
            self.observed,
            self.home.as_str(),
            now,
        );
        let save = self.save(&session);
        self.insert(session);
        Created { id, save }
    }

    /// Looks up a session.
    pub fn get(&self, id: &str) -> (r: Option<&Session>)
        ensures
            match r {
                Some(s) => session_at(self@.sessions, id@) == Some(s@),
                None => session_at(self@.sessions, id@) is None,
            },
    {
        let i = self.find(id);
        if i < self.sessions.len() {
            Some(&self.sessions[i])
        } else {
            None
        }
    }

    /// Looks up a session to change it in place.
    pub fn get_mut(&mut self, id: &str) -> (r: Option<&mut Session>)
        ensures
            match r {
                Some(s) => {
                    &&& session_at(old(self)@.sessions, id@) == Some((*s)@)
                    &&& final(self)@ == (StoreView {
                        sessions: old(self)@.sessions.update(
                            position(old(self)@.sessions, id@),
                            (*final(s))@,
                        ),
                        ..old(self)@
                    })
                },
                None => {
                    &&& session_at(old(self)@.sessions, id@) is None
                    &&& final(self)@ == old(self)@
                },
            },
    {
        let i = self.find(id);
        if i < self.sessions.len() {
            Some(&mut self.sessions[i])
        } else {
            None
        }
    }

    /// The metadata of all sessions, oldest first.
    pub fn list(&self) -> (r: Vec<SessionMeta>)
        ensures
            r.deep_view() == sorted::<SessionMeta>(metas(self@.sessions)),
    {
        let mut out: Vec<SessionMeta> = Vec::new();
        let mut i: usize = 0;
        while i < self.sessions.len()
            invariant
                i <= self.sessions@.len(),
                out@.len() == i,
                forall|k: int|
                    0 <= k < i ==> (#[trigger] out@[k])@ == meta_of(self.sessions@[k]@),
            decreases self.sessions@.len() - i,
        {
            out.push(self.sessions[i].meta());
            i = i + 1;
        }
        assert(out.deep_view() =~= metas(self@.sessions));
        sort(out)
    }

    /// Renames a session and gives the file to write.
    pub fn rename(&mut self, id: &str, title: &str) -> (r: Result<Option<FileWrite>, String>)
        ensures
            match session_at(old(self)@.sessions, id@) {
                Some(s) => {
                    let renamed = SessionView { title: title@, ..s };
                    &&& r matches Ok(w)
                    &&& w.deep_view() == saved(old(self)@.dir, renamed)
                    &&& final(self)@ == (StoreView {
                        sessions: old(self)@.sessions.update(
                            position(old(self)@.sessions, id@),
                            renamed,
                        ),
                        ..old(self)@
                    })
                },
                None => {
                    &&& r matches Err(e)
                    &&& e@ == "session "@ + id@ + " not found"@
                    &&& final(self)@ == old(self)@
                },
            },
    {
        let i = self.find(id);
        if i < self.sessions.len() {
            let ghost before = self@;
            let mut session = self.sessions[i].duplicate();
            session.set_title(title);
            let save = self.save(&session);
            self.sessions.set(i, session);
            assert(self.sessions.deep_view() =~= before.sessions.update(i as int, session@));
            Ok(save)
        } else {
            Err(concat3("session ", id, " not found"))
        }
    }

    /// Deletes a session and gives the file to delete.
    pub fn remove(&mut self, id: &str) -> (r: Option<String>)
        ensures
            final(self)@ == (StoreView {
                sessions: without(old(self)@.sessions, id@),
                ..old(self)@
            }),
            r.deep_view() == (if session_at(old(self)@.sessions, id@) is Some && old(
                self,
            )@.dir is Some {
                Some(path::under(old(self)@.dir->0, file_name(id@)))
            } else {
                None
            }),
    {
        let ghost all = self@.sessions;
        let ghost other = |x: SessionView| x.id != id@;
        let found = self.find(id) < self.sessions.len();
        let mut kept: Vec<Session> = Vec::new();
        let mut i: usize = 0;
        assert(all.take(0).filter(other) =~= Seq::empty());
        while i < self.sessions.len()
            invariant
                i <= self.sessions@.len(),
                self@ == old(self)@,
                all == self.sessions.deep_view(),
                other == (|x: SessionView| x.id != id@),
                kept.deep_view() == all.take(i as int).filter(other),
            decreases self.sessions@.len() - i,
        {
            let ghost before = kept.deep_view();
            proof {
                assert(all.take(i + 1) =~= all.take(i as int).push(all[i as int]));
                lemma_filter_push(all.take(i as int), all[i as int], other);
            }
            if !same(self.sessions[i].id(), id) {
                kept.push(self.sessions[i].duplicate());
                assert(kept.deep_view() =~= before.push(all[i as int]));
            }
            i = i + 1;
        }
        assert(all.take(i as int) =~= all);
        self.sessions = kept;
        if found {
            match &self.dir {
                Some(d) => {
                    let name = concat2(id, ".json");
                    Some(path::join(d.as_str(), name.as_str()))
                },
                None => None,
            }
        } else {
            None
        }
    }

    /// The file in which a session is to be kept; none for a store in memory. The session is read
    /// back from it as it was, unless a value in its log is nested deeper than is read.
    pub fn save(&self, session: &Session) -> (r: Option<FileWrite>)
        ensures
            r.deep_view() == saved(self@.dir, session@),
            r matches Some(w) ==> log_nested(session@.log, 122) ==> record_in(w.text@) == Some(
                record_of(session@),
            ),
    {
        match &self.dir {
            Some(d) => {
                let name = concat2(session.id(), ".json");
                Some(
                    FileWrite {
                        path: path::join(d.as_str(), name.as_str()),
                        text: session.to_json(),
                    },
                )
            },
            None => None,
        }
    }
}

pub proof fn lemma_filter_push<A>(s: Seq<A>, x: A, f: spec_fn(A) -> bool)
    ensures
        s.push(x).filter(f) == (if f(x) {
            s.filter(f).push(x)
        } else {
            s.filter(f)
        }),
{
    reveal(Seq::filter);
    assert(s.push(x).drop_last() =~= s);
}

// ---------- what the store promises ----------

/// What was inserted is found.
pub proof fn lemma_insert_get(s: Seq<SessionView>, x: SessionView)
    ensures
        session_at(inserted(s, x), x.id) == Some(x),
{
    let t = inserted(s, x);
    lemma_span(session_ids(s), x.id);
    let n = position(s, x.id);
    assert forall|j: int| 0 <= j < n implies session_ids(t)[j] != x.id by {
        assert(session_ids(s)[j] == session_ids(t)[j]);
    }
    assert(session_ids(t)[n] == x.id);
    lemma_span_is(session_ids(t), x.id, n);
}

proof fn lemma_later(n: u64, k: nat)
    requires
        k <= u64::MAX,
    ensures
        later(n, k) == (if n + k <= u64::MAX {
            n + k
        } else {
            n + k - u64::MAX - 1
        }),
    decreases k,
{
    if k > 0 {
        lemma_later(n, (k - 1) as nat);
    }
}

proof fn lemma_later_shift(n: u64, k: nat)
    ensures
        later(after(n), k) == later(n, k + 1),
    decreases k,
{
    reveal_with_fuel(later, 2);
    if k > 0 {
        lemma_later_shift(n, (k - 1) as nat);
    }
}

/// Where the sessions stand that have the first `k` identities from number `n` on.
spec fn spots(s: Seq<SessionView>, n: u64, k: nat) -> Set<int>
    decreases k,
{
    if k == 0 {
        Set::empty()
    } else {
        spots(s, n, (k - 1) as nat).insert(
            position(s, id_text(IdKind::Session, later(n, (k - 1) as nat))),
        )
    }
}

proof fn lemma_spots(s: Seq<SessionView>, n: u64, k: nat)
    requires
        k <= u64::MAX + 1,
        forall|j: nat| j < k ==> taken(s, #[trigger] later(n, j)),
    ensures
        spots(s, n, k).finite(),
        spots(s, n, k).len() == k,
        forall|p: int| #[trigger]
            spots(s, n, k).contains(p) ==> 0 <= p < s.len() && exists|j: nat|
                j < k && p == position(s, id_text(IdKind::Session, #[trigger] later(n, j))),
    decreases k,
{
    if k > 0 {
        let last = (k - 1) as nat;
        lemma_spots(s, n, last);
        let before = spots(s, n, last);
        let id = id_text(IdKind::Session, later(n, last));
        let p = position(s, id);
        assert(taken(s, later(n, last)));
        lemma_span(session_ids(s), id);
        assert(session_ids(s)[p] == id);
        if before.contains(p) {
            let j = choose|j: nat|
                j < last && p == position(s, id_text(IdKind::Session, #[trigger] later(n, j)));
            let other = id_text(IdKind::Session, later(n, j));
            assert(taken(s, later(n, j)));
            lemma_span(session_ids(s), other);
            assert(session_ids(s)[p] == other);
            lemma_ids_distinct(IdKind::Session, later(n, j), IdKind::Session, later(n, last));
            lemma_later(n, j);
            lemma_later(n, last);
            assert(false);
        }
        assert forall|q: int| #[trigger]
            spots(s, n, k).contains(q) implies 0 <= q < s.len() && exists|j: nat|
            j < k && q == position(s, id_text(IdKind::Session, #[trigger] later(n, j))) by {
            if q == p {
                assert(last < k && q == position(
                    s,
                    id_text(IdKind::Session, later(n, last)),
                ));
            } else {
                assert(before.contains(q));
            }
        }
    }
}

proof fn lemma_free_within(s: Seq<SessionView>, n: u64, left: nat)
    ensures
        exists|k: nat|
            k <= left && free_within(s, n, left) == #[trigger] later(n, k) && (k < left ==> !taken(
                s,
                later(n, k),
            )) && forall|j: nat| j < k ==> taken(s, #[trigger] later(n, j)),
    decreases left,
{
    if left == 0 || !taken(s, n) {
        assert(free_within(s, n, left) == later(n, 0));
    } else {
        let rest = (left - 1) as nat;
        lemma_free_within(s, after(n), rest);
        let k = choose|k: nat|
            k <= rest && free_within(s, after(n), rest) == #[trigger] later(after(n), k) && (k
                < rest ==> !taken(s, later(after(n), k))) && forall|j: nat|
                j < k ==> taken(s, #[trigger] later(after(n), j));
        lemma_later_shift(n, k);
        assert forall|j: nat| j < k + 1 implies taken(s, #[trigger] later(n, j)) by {
            if j > 0 {
                lemma_later_shift(n, (j - 1) as nat);
                assert(taken(s, later(after(n), (j - 1) as nat)));
            }
        }
        assert(free_within(s, n, left) == later(n, k + 1));
    }
}

/// The number of the next session is not taken: no session has its identity.
pub proof fn lemma_number_is_free(s: Seq<SessionView>, n: u64)
    requires
        s.len() <= u64::MAX,
    ensures
        !taken(s, free_number(s, n)),
{
    let len = s.len();
    lemma_free_within(s, n, len);
    let k = choose|k: nat|
        k <= len && free_within(s, n, len) == #[trigger] later(n, k) && (k < len ==> !taken(
            s,
            later(n, k),
        )) && forall|j: nat| j < k ==> taken(s, #[trigger] later(n, j));
    if taken(s, later(n, k)) {
        assert forall|j: nat| j < len + 1 implies taken(s, #[trigger] later(n, j)) by {}
        lemma_spots(s, n, len + 1);
        let all = set_int_range(0, len as int);
        lemma_int_range(0, len as int);
        assert(spots(s, n, len + 1).subset_of(all));
        lemma_len_subset(spots(s, n, len + 1), all);
    }
}

/// A created session has an identity that no session had; it is found under it, and every session
/// that was there is still found under its own.
pub proof fn lemma_created_is_fresh(s: Seq<SessionView>, n: u64, x: SessionView, id: Seq<char>)
    requires
        s.len() <= u64::MAX,
        x.id == new_session_id(s, n),
    ensures
        session_at(s, x.id) is None,
        inserted(s, x) == s.push(x),
        session_at(inserted(s, x), x.id) == Some(x),
        session_at(s, id) is Some ==> session_at(inserted(s, x), id) == session_at(s, id),
{
    lemma_number_is_free(s, n);
    lemma_insert_get(s, x);
    if session_at(s, id) is Some {
        lemma_insert_keeps(s, x, id);
    }
}

/// Inserting leaves the sessions of other identities as they are.
pub proof fn lemma_insert_keeps(s: Seq<SessionView>, x: SessionView, id: Seq<char>)
    requires
        id != x.id,
    ensures
        session_at(inserted(s, x), id) == session_at(s, id),
{
    let t = inserted(s, x);
    let a = session_ids(s);
    let b = session_ids(t);
    lemma_span(a, x.id);
    lemma_span(a, id);
    let n = position(s, id);
    let at = position(s, x.id);
    assert forall|j: int| 0 <= j < n implies b[j] != id by {
        if j != at {
            assert(b[j] == a[j]);
        }
    }
    if n < s.len() {
        assert(a[n] == id);
        assert(at != n);
        assert(b[n] == a[n]);
        lemma_span_is(b, id, n);
        assert(t[n] == s[n]);
    } else {
        assert forall|j: int| 0 <= j < t.len() implies b[j] != id by {
            if j < s.len() && j != at {
                assert(b[j] == a[j]);
            }
        }
        lemma_span_is(b, id, t.len() as int);
    }
}

/// A store never holds two sessions of one identity: inserting keeps identities apart.
pub proof fn lemma_insert_distinct(s: Seq<SessionView>, x: SessionView)
    requires
        distinct(s),
    ensures
        distinct(inserted(s, x)),
{
    lemma_span(session_ids(s), x.id);
    let n = position(s, x.id);
    let t = inserted(s, x);
    assert forall|i: int, j: int| 0 <= i < j < t.len() implies (#[trigger] t[i]).id != (
    #[trigger] t[j]).id by {
        if i < s.len() {
            assert(session_ids(s)[i] == s[i].id);
        }
        if j < s.len() {
            assert(session_ids(s)[j] == s[j].id);
        }
        if n < s.len() {
            assert(session_ids(s)[n] == x.id);
            if i == n || j == n {
                let k = if i == n { j } else { i };
                assert(s[k].id != s[n].id);
            } else {
                assert(s[i].id != s[j].id);
            }
        } else if j < s.len() {
            assert(s[i].id != s[j].id);
        }
    }
}

proof fn lemma_without(s: Seq<SessionView>, id: Seq<char>)
    ensures
        forall|i: int|
            0 <= i < without(s, id).len() ==> (#[trigger] without(s, id)[i]).id != id && s.contains(
                without(s, id)[i],
            ),
        distinct(s) ==> distinct(without(s, id)),
    decreases s.len(),
{
    reveal(Seq::filter);
    let t = without(s, id);
    if s.len() > 0 {
        let front = s.drop_last();
        let u = without(front, id);
        lemma_without(front, id);
        assert forall|i: int| 0 <= i < t.len() implies (#[trigger] t[i]).id != id && s.contains(
            t[i],
        ) by {
            if i < u.len() {
                assert(t[i] == u[i]);
                let k = choose|k: int| 0 <= k < front.len() && front[k] == u[i];
                assert(s[k] == t[i]);
            } else {
                assert(s[s.len() - 1] == t[i]);
            }
        }
        if distinct(s) {
            assert forall|i: int, j: int| 0 <= i < j < front.len() implies (#[trigger] front[i]).id
                != (#[trigger] front[j]).id by {
                assert(s[i].id != s[j].id);
            }
            assert forall|i: int, j: int| 0 <= i < j < t.len() implies (#[trigger] t[i]).id != (
            #[trigger] t[j]).id by {
                if j < u.len() {
                    assert(u[i].id != u[j].id);
                } else {
                    assert(t[i] == u[i]);
                    let k = choose|k: int| 0 <= k < front.len() && front[k] == u[i];
                    assert(s[k].id != s[s.len() - 1].id);
                }
            }
        }
    }
}

/// A removed session is not found, and removing keeps identities apart.
pub proof fn lemma_removed_is_gone(s: Seq<SessionView>, id: Seq<char>)
    ensures
        session_at(without(s, id), id) is None,
        distinct(s) ==> distinct(without(s, id)),
{
    let t = without(s, id);
    lemma_without(s, id);
    lemma_span(session_ids(t), id);
    if position(t, id) < t.len() {
        let n = position(t, id);
        assert(session_ids(t)[n] == id);
        assert(t[n].id == id);
    }
}

proof fn lemma_json_extension(id: Seq<char>)
    requires
        id.len() > 0,
    ensures
        path::extension_of(file_name(id)) == Some("json"@),
{
    reveal_strlit(".json");
    reveal_strlit("json");
    reveal_strlit("..");
    let name = file_name(id);
    let n = id.len() as int;
    let a = name.drop_last();
    let b = a.drop_last();
    let c = b.drop_last();
    let d = c.drop_last();
    assert(name.last() == 'n' && a.last() == 'o' && b.last() == 's' && c.last() == 'j');
    assert(d.last() == '.');
    assert(path::last_dot(d) == n);
    assert(path::last_dot(c) == n);
    assert(path::last_dot(b) == n);
    assert(path::last_dot(a) == n);
    assert(path::last_dot(name) == n);
    assert(name.len() != ".."@.len());
    assert(name.skip(n + 1) =~= "json"@);
}

/// A store loaded from the files of sessions holds these sessions again, all of them and as they
/// were. An empty identity is left out: its file would have no extension.
pub proof fn lemma_saved_is_loaded(
    s: Seq<SessionView>,
    texts: Seq<Seq<char>>,
    observed: bool,
    home: Seq<char>,
)
    requires
        distinct(s),
        texts.len() == s.len(),
        forall|i: int| 0 <= i < s.len() ==> (#[trigger] s[i]).id.len() > 0,
        forall|i: int| 0 <= i < s.len() ==> (#[trigger] s[i]).observed == observed,
        forall|i: int|
            0 <= i < s.len() ==> record_in(#[trigger] texts[i]) == Some(record_of(s[i])),
    ensures
        loaded(
            Seq::new(s.len(), |i: int| (file_name(s[i].id), Some(texts[i]))),
            observed,
            home,
        ) == s,
    decreases s.len(),
{
    let entries = Seq::new(s.len(), |i: int| (file_name(s[i].id), Some(texts[i])));
    if s.len() > 0 {
        let front = s.drop_last();
        let x = s.last();
        assert forall|i: int, j: int| 0 <= i < j < front.len() implies (#[trigger] front[i]).id != (
        #[trigger] front[j]).id by {
            assert(s[i].id != s[j].id);
        }
        assert forall|i: int| 0 <= i < front.len() implies (#[trigger] front[i]).id.len() > 0
            && front[i].observed == observed by {
            assert(front[i] == s[i]);
        }
        assert forall|i: int| 0 <= i < front.len() implies record_in(
            #[trigger] texts.drop_last()[i],
        ) == Some(record_of(front[i])) by {
            assert(texts.drop_last()[i] == texts[i]);
        }
        lemma_saved_is_loaded(front, texts.drop_last(), observed, home);
        assert(entries.drop_last() =~= Seq::new(
            front.len(),
            |i: int| (file_name(front[i].id), Some(texts.drop_last()[i])),
        ));
        lemma_json_extension(x.id);
        assert(record_in(texts[s.len() - 1]) == Some(record_of(x)));
        assert(session_of(record_of(x), observed, home) == x);
        lemma_span(session_ids(front), x.id);
        if position(front, x.id) < front.len() {
            let k = position(front, x.id);
            assert(session_ids(front)[k] == x.id);
            assert(s[k].id != s[s.len() - 1].id);
        }
        assert(front.push(x) =~= s);
    } else {
        assert(entries =~= Seq::empty());
        assert(s =~= Seq::empty());
    }
}

} // verus!
