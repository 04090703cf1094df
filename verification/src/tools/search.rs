//! Searching a directory tree. The tree is outside: the search asks for what directories and files
//! hold, and is handed the answers.
use vstd::prelude::*;
use vstd::string::*;

use crate::json::{Json, Tree, object};
use crate::path;
use crate::pattern::{
    compile, compile_glob, glob_error, glob_match, glob_matches, glob_source, is_match,
    regex_matches, regex_source, slashed,
};
use crate::text::{
    begins, clip, clipped, concat2, line_seq, lines, same, starts_with, trim_end, trimmed_end,
};
use crate::tool::call::{CallView, ToolCallContext};
use crate::tool::description::{DescriptionView, ToolDescription};
use crate::tool::error::{ErrorView, ToolError, failed};
use crate::tool::registry::Tool;
use crate::tools::schema::{word_trees, word_views, words};

verus! {

/// No directory is entered once so many files were seen.
pub const MAX_FILES: usize = 400;

/// No more is found than this.
pub const MAX_RESULTS: usize = 200;

/// No directory is entered below this depth.
pub const MAX_DEPTH: usize = 10;

/// One entry of a directory.
#[derive(Debug)]
pub struct Entry {
    pub name: String,
    pub path: String,
    pub is_dir: bool,
}

/// What an entry stands for.
pub struct EntryView {
    pub name: Seq<char>,
    pub path: Seq<char>,
    pub is_dir: bool,
}

impl View for Entry {
    type V = EntryView;

    open spec fn view(&self) -> EntryView {
        EntryView { name: self.name@, path: self.path@, is_dir: self.is_dir }
    }
}

impl DeepView for Entry {
    type V = EntryView;

    open spec fn deep_view(&self) -> EntryView {
        self@
    }
}

/// A directory tree, as it answers: what a directory lists, and what a file holds, where it can be
/// read.
pub struct Answers {
    pub listing: spec_fn(Seq<char>) -> Option<Seq<EntryView>>,
    pub content: spec_fn(Seq<char>) -> Option<Seq<char>>,
}

/// Whether a directory is never entered for its name.
pub open spec fn skipped(name: Seq<char>) -> bool {
    name == ".git"@ || name == "target"@ || name == "node_modules"@ || name == ".ref"@ || name
        == ".venv"@ || name == "dist"@ || name == "build"@
}

/// Whether a directory is never entered for its name.
pub fn skip_dir(name: &str) -> (r: bool)
    ensures
        r == skipped(name@),
{
    same(name, ".git") || same(name, "target") || same(name, "node_modules") || same(name, ".ref")
        || same(name, ".venv") || same(name, "dist") || same(name, "build")
}

/// Whether a name is hidden.
pub open spec fn hidden(name: Seq<char>) -> bool {
    crate::text::begins(name, "."@)
}

/// Whether a directory is entered.
pub open spec fn entered(name: Seq<char>) -> bool {
    !hidden(name) && !skipped(name)
}

fn enters(name: &str) -> (r: bool)
    ensures
        r == entered(name@),
{
    !starts_with(name, ".") && !skip_dir(name)
}

/// One more file was seen; above the limit it does not matter how many more.
pub open spec fn one_more(files: nat) -> nat {
    if files < MAX_FILES {
        files + 1
    } else {
        files
    }
}

/// A directory whose entries are being gone through.
#[derive(Debug)]
struct Frame {
    left: usize,
    entries: Vec<Entry>,
    next: usize,
}

/// What such a directory stands for: the levels that may be entered below it, and the entries that
/// are left.
#[verifier::ext_equal]
pub struct FrameView {
    pub left: nat,
    pub rest: Seq<EntryView>,
}

impl View for Frame {
    type V = FrameView;

    closed spec fn view(&self) -> FrameView {
        FrameView {
            left: self.left as nat,
            rest: self.entries.deep_view().skip(self.next as int),
        }
    }
}

impl DeepView for Frame {
    type V = FrameView;

    open spec fn deep_view(&self) -> FrameView {
        self@
    }
}

impl Frame {
    spec fn sound(&self) -> bool {
        self.next <= self.entries@.len()
    }

    fn take(&mut self) -> (r: Option<Entry>)
        requires
            old(self).sound(),
        ensures
            final(self).sound(),
            match r {
                Some(e) => {
                    &&& old(self)@.rest.len() > 0
                    &&& e@ == old(self)@.rest[0]
                    &&& final(self)@ == (FrameView {
                        rest: old(self)@.rest.drop_first(),
                        ..old(self)@
                    })
                },
                None => old(self)@.rest.len() == 0 && final(self)@ == old(self)@,
            },
    {
        if self.next < self.entries.len() {
            let ghost before = self@;
            let i = self.next;
            let e = Entry {
                name: self.entries[i].name.clone(),
                path: self.entries[i].path.clone(),
                is_dir: self.entries[i].is_dir,
            };
            assert(before.rest[0] == self.entries@[i as int]@);
            self.next = i + 1;
            assert(self@.rest =~= before.rest.drop_first());
            Some(e)
        } else {
            None
        }
    }
}

spec fn all_sound(frames: Seq<Frame>) -> bool {
    forall|i: int| 0 <= i < frames.len() ==> (#[trigger] frames[i]).sound()
}

/// How much is left to go through in directories.
pub open spec fn workload(frames: Seq<FrameView>) -> nat
    decreases frames.len(),
{
    if frames.len() == 0 {
        0
    } else {
        workload(frames.drop_last()) + frames.last().rest.len() + 1
    }
}

/// What a search asks for.
#[derive(Debug)]
pub enum Ask {
    /// What a directory lists.
    List(String),
    /// What a file holds.
    Read(String),
    /// Nothing any more.
    Done,
}

/// What a search waits for.
#[derive(Debug)]
enum Waiting {
    Nothing,
    Directory { path: String, left: usize },
    File { path: String },
}

/// What a search waits for, as it stands.
pub enum WaitingView {
    Nothing,
    Directory { path: Seq<char>, left: nat },
    File { path: Seq<char> },
}

impl View for Waiting {
    type V = WaitingView;

    closed spec fn view(&self) -> WaitingView {
        match self {
            Waiting::Nothing => WaitingView::Nothing,
            Waiting::Directory { path, left } => WaitingView::Directory {
                path: path@,
                left: *left as nat,
            },
            Waiting::File { path } => WaitingView::File { path: path@ },
        }
    }
}

/// Whether a question fits what a search waits for.
pub open spec fn asks(w: WaitingView, a: Ask) -> bool {
    match a {
        Ask::List(p) => w matches WaitingView::Directory { path, .. } && path == p@,
        Ask::Read(p) => w matches WaitingView::File { path } && path == p@,
        Ask::Done => w is Nothing,
    }
}

// ---------- searching the contents of files ----------

/// What a search of contents has found so far.
#[verifier::ext_equal]
pub struct GrepView {
    /// How many files were seen, up to the limit.
    pub files: nat,
    pub truncated: bool,
    pub results: Seq<Tree>,
}

/// A line that was found.
pub open spec fn found_line(path: Seq<char>, number: nat, line: Seq<char>) -> Tree {
    object().with("file"@, Tree::Text(path)).with("line"@, Tree::Unsigned(number as u64)).with(
        "text"@,
        Tree::Text(clipped(trimmed_end(line), 200)),
    )
}

/// What is found in the lines of a file from the given one on, and whether the search of its
/// directory stops there because there are too many results.
pub open spec fn lines_searched(
    source: Seq<char>,
    path: Seq<char>,
    ls: Seq<Seq<char>>,
    from: int,
    st: GrepView,
) -> (GrepView, bool)
    decreases ls.len() - from,
{
    if from < 0 || from >= ls.len() {
        (st, false)
    } else if !regex_matches(source, ls[from]) {
        lines_searched(source, path, ls, from + 1, st)
    } else if st.results.len() >= MAX_RESULTS {
        (GrepView { truncated: true, ..st }, true)
    } else {
        lines_searched(
            source,
            path,
            ls,
            from + 1,
            GrepView {
                results: st.results.push(found_line(path, (from + 1) as nat, ls[from])),
                ..st
            },
        )
    }
}

/// What a search has found after a file was read.
pub open spec fn file_searched(
    source: Seq<char>,
    path: Seq<char>,
    content: Option<Seq<char>>,
    st: GrepView,
) -> (GrepView, bool) {
    match content {
        Some(text) => lines_searched(source, path, line_seq(text), 0, st),
        None => (st, false),
    }
}

/// What a search has found after a directory, when `left` levels may still be entered.
pub open spec fn walked(
    fs: Answers,
    source: Seq<char>,
    dir: Seq<char>,
    left: nat,
    st: GrepView,
) -> GrepView
    decreases left, 0nat, 0nat,
{
    if left == 0 || st.files >= MAX_FILES || st.results.len() >= MAX_RESULTS {
        GrepView { truncated: true, ..st }
    } else {
        match (fs.listing)(dir) {
            Some(entries) => siblings(fs, source, entries, (left - 1) as nat, st),
            None => st,
        }
    }
}

/// What a search has found after some entries of a directory.
pub open spec fn siblings(
    fs: Answers,
    source: Seq<char>,
    entries: Seq<EntryView>,
    left: nat,
    st: GrepView,
) -> GrepView
    decreases left, 1nat, entries.len(),
{
    if entries.len() == 0 {
        st
    } else {
        let e = entries[0];
        let others = entries.drop_first();
        if e.is_dir {
            if entered(e.name) {
                siblings(fs, source, others, left, walked(fs, source, e.path, left, st))
            } else {
                siblings(fs, source, others, left, st)
            }
        } else {
            let seen = GrepView { files: one_more(st.files), ..st };
            if hidden(e.name) {
                siblings(fs, source, others, left, seen)
            } else {
                let (after, stop) = file_searched(source, e.path, (fs.content)(e.path), seen);
                if stop {
                    after
                } else {
                    siblings(fs, source, others, left, after)
                }
            }
        }
    }
}

/// What a search has found after all directories that it is in.
pub open spec fn unwound(
    fs: Answers,
    source: Seq<char>,
    frames: Seq<FrameView>,
    st: GrepView,
) -> GrepView
    decreases frames.len(),
{
    if frames.len() == 0 {
        st
    } else {
        unwound(
            fs,
            source,
            frames.drop_last(),
            siblings(fs, source, frames.last().rest, frames.last().left, st),
        )
    }
}

/// A search of contents.
#[derive(Debug)]
pub struct GrepWalk {
    re: regex::Regex,
    frames: Vec<Frame>,
    waiting: Waiting,
    files_seen: usize,
    truncated: bool,
    results: Vec<Json>,
}

/// What a search of contents stands for.
#[verifier::ext_equal]
pub struct GrepWalkView {
    pub source: Seq<char>,
    pub frames: Seq<FrameView>,
    pub waiting: WaitingView,
    pub st: GrepView,
}

impl View for GrepWalk {
    type V = GrepWalkView;

    closed spec fn view(&self) -> GrepWalkView {
        GrepWalkView {
            source: regex_source(self.re),
            frames: self.frames.deep_view(),
            waiting: self.waiting@,
            st: GrepView {
                files: self.files_seen as nat,
                truncated: self.truncated,
                results: self.results.deep_view(),
            },
        }
    }
}

/// What a search will have found in the end, where the tree answers as `fs` does.
pub open spec fn outcome(fs: Answers, v: GrepWalkView) -> GrepView {
    match v.waiting {
        WaitingView::Nothing => unwound(fs, v.source, v.frames, v.st),
        WaitingView::Directory { path, left } => unwound(
            fs,
            v.source,
            v.frames,
            (match (fs.listing)(path) {
                Some(entries) => siblings(fs, v.source, entries, left, v.st),
                None => v.st,
            }),
        ),
        WaitingView::File { path } => {
            let (after, stop) = file_searched(v.source, path, (fs.content)(path), v.st);
            unwound(
                fs,
                v.source,
                (if stop {
                    v.frames.drop_last()
                } else {
                    v.frames
                }),
                after,
            )
        },
    }
}

/// A search that has found nothing yet.
pub open spec fn nothing_found() -> GrepView {
    GrepView { files: 0, truncated: false, results: Seq::empty() }
}

impl GrepWalk {
    /// The frames are in order, and a file is read only inside a directory.
    pub closed spec fn sound(&self) -> bool {
        &&& all_sound(self.frames@)
        &&& self.waiting is File ==> self.frames@.len() > 0
        &&& self.files_seen <= MAX_FILES
    }

    /// A search below a root.
    pub fn new(re: regex::Regex, root: &str) -> (r: GrepWalk)
        ensures
            r.sound(),
            r@.source == regex_source(re),
            forall|fs: Answers| #[trigger]
                outcome(fs, r@) == walked(
                    fs,
                    regex_source(re),
                    root@,
                    (MAX_DEPTH + 1) as nat,
                    nothing_found(),
                ),
    {
        let r = GrepWalk {
            re,
            frames: Vec::new(),
            waiting: Waiting::Directory { path: root.to_owned(), left: MAX_DEPTH },
            files_seen: 0,
            truncated: false,
            results: Vec::new(),
        };
        assert(r@.frames =~= Seq::empty());
        assert(r@.st =~= nothing_found());
        r
    }

    /// The next question. What will have been found in the end is not changed by asking.
    pub fn next(&mut self) -> (r: Ask)
        requires
            old(self).sound(),
        ensures
            final(self).sound(),
            final(self)@.source == old(self)@.source,
            asks(final(self)@.waiting, r),
            forall|fs: Answers| #[trigger]
                outcome(fs, final(self)@) == outcome(fs, old(self)@),
            r is Done ==> forall|fs: Answers| #[trigger]
                outcome(fs, final(self)@) == final(self)@.st,
    {
        match &self.waiting {
            Waiting::Directory { path, .. } => {
                return Ask::List(path.clone());
            },
            Waiting::File { path } => {
                return Ask::Read(path.clone());
            },
            Waiting::Nothing => {},
        }
        let ghost first = self@;
        loop
            invariant
                self.sound(),
                self.waiting is Nothing,
                first == old(self)@,
                self@.source == first.source,
                forall|fs: Answers| #[trigger]
                    outcome(fs, self@) == outcome(fs, first),
            decreases workload(self@.frames),
        {
            let ghost before = self@;
            let mut frame = match self.frames.pop() {
                Some(f) => f,
                None => {
                    assert(before.frames.len() == 0);
                    assert(self@.frames =~= before.frames);
                    return Ask::Done;
                },
            };
            assert(before.frames.last() == frame@);
            assert(self@.frames =~= before.frames.drop_last());
            let ghost top = frame@;
            match frame.take() {
                None => {
                    assert forall|fs: Answers| #[trigger]
                        outcome(fs, self@) == outcome(fs, first) by {
                        assert(siblings(fs, before.source, top.rest, top.left, before.st)
                            == before.st);
                        assert(outcome(fs, before) == outcome(fs, self@));
                    }
                },
                Some(e) => {
                    let left = frame.left;
                    let ghost below = self@.frames;
                    let ghost now = frame@;
                    self.frames.push(frame);
                    assert(self@.frames =~= below.push(now));
                    assert(self@.frames.drop_last() =~= below);
                    if e.is_dir {
                        if enters(e.name.as_str()) {
                            if left == 0 || self.files_seen >= MAX_FILES || self.results.len()
                                >= MAX_RESULTS {
                                self.truncated = true;
                                assert forall|fs: Answers| #[trigger]
                                    outcome(fs, self@) == outcome(fs, first) by {
                                    assert(walked(
                                        fs,
                                        before.source,
                                        e@.path,
                                        top.left,
                                        before.st,
                                    ) == self@.st);
                                    assert(outcome(fs, before) == outcome(fs, self@));
                                }
                            } else {
                                let path = e.path;
                                let ask = path.clone();
                                let ghost to = path@;
                                self.waiting = Waiting::Directory { path, left: left - 1 };
                                assert forall|fs: Answers| #[trigger]
                                    outcome(fs, self@) == outcome(fs, first) by {
                                    let inside = walked(
                                        fs,
                                        before.source,
                                        to,
                                        top.left,
                                        before.st,
                                    );
                                    assert(unwound(fs, before.source, before.frames, before.st)
                                        == unwound(
                                        fs,
                                        before.source,
                                        below,
                                        siblings(fs, before.source, now.rest, now.left, inside),
                                    ));
                                    assert(unwound(fs, before.source, self@.frames, inside)
                                        == unwound(
                                        fs,
                                        before.source,
                                        below,
                                        siblings(fs, before.source, now.rest, now.left, inside),
                                    ));
                                    assert(outcome(fs, before) == outcome(fs, self@));
                                }
                                return Ask::List(ask);
                            }
                        } else {
                            assert forall|fs: Answers| #[trigger]
                                outcome(fs, self@) == outcome(fs, first) by {
                                assert(outcome(fs, before) == outcome(fs, self@));
                            }
                        }
                    } else {
                        if self.files_seen < MAX_FILES {
                            self.files_seen = self.files_seen + 1;
                        }
                        assert(self@.st =~= GrepView {
                            files: one_more(before.st.files),
                            ..before.st
                        });
                        if !starts_with(e.name.as_str(), ".") {
                            let path = e.path;
                            let ask = path.clone();
                            self.waiting = Waiting::File { path };
                            assert forall|fs: Answers| #[trigger]
                                outcome(fs, self@) == outcome(fs, first) by {
                                assert(outcome(fs, before) == outcome(fs, self@));
                            }
                            return Ask::Read(ask);
                        } else {
                            assert forall|fs: Answers| #[trigger]
                                outcome(fs, self@) == outcome(fs, first) by {
                                assert(outcome(fs, before) == outcome(fs, self@));
                            }
                        }
                    }
                },
            }
        }
    }

    /// Takes what the directory lists that was asked for; nothing where it cannot be read.
    pub fn listed(&mut self, entries: Option<Vec<Entry>>)
        requires
            old(self).sound(),
        ensures
            final(self).sound(),
            final(self)@.source == old(self)@.source,
            match old(self)@.waiting {
                WaitingView::Directory { path, .. } => {
                    &&& final(self)@.waiting is Nothing
                    &&& forall|fs: Answers|
                        (fs.listing)(path) == entries.deep_view() ==> #[trigger] outcome(
                            fs,
                            final(self)@,
                        ) == outcome(fs, old(self)@)
                },
                _ => final(self)@ == old(self)@,
            },
    {
        let ghost before = self@;
        let left = match &self.waiting {
            Waiting::Directory { left, .. } => *left,
            _ => {
                return;
            },
        };
        self.waiting = Waiting::Nothing;
        match entries {
            Some(v) => {
                let frame = Frame { left, entries: v, next: 0 };
                assert(frame@.rest =~= v.deep_view());
                self.frames.push(frame);
                assert(self@.frames =~= before.frames.push(frame@));
                assert(self@.frames.drop_last() =~= before.frames);
            },
            None => {},
        }
    }

    /// Takes what the file holds that was asked for; nothing where it cannot be read.
    pub fn read(&mut self, content: Option<String>)
        requires
            old(self).sound(),
        ensures
            final(self).sound(),
            final(self)@.source == old(self)@.source,
            match old(self)@.waiting {
                WaitingView::File { path } => {
                    &&& final(self)@.waiting is Nothing
                    &&& forall|fs: Answers|
                        (fs.content)(path) == content.deep_view() ==> #[trigger] outcome(
                            fs,
                            final(self)@,
                        ) == outcome(fs, old(self)@)
                },
                _ => final(self)@ == old(self)@,
            },
    {
        let ghost before = self@;
        let path = match &self.waiting {
            Waiting::File { path } => path.clone(),
            _ => {
                return;
            },
        };
        self.waiting = Waiting::Nothing;
        match content {
            Some(text) => {
                let stop = self.search(path.as_str(), text.as_str());
                if stop {
                    let ghost all = self@.frames;
                    let _ = self.frames.pop();
                    assert(self@.frames =~= all.drop_last());
                }
            },
            None => {},
        }
    }

    fn search(&mut self, path: &str, text: &str) -> (stop: bool)
        requires
            old(self).sound(),
            old(self).waiting is Nothing,
        ensures
            final(self).sound(),
            final(self).waiting is Nothing,
            final(self).frames@ == old(self).frames@,
            final(self)@ == (GrepWalkView {
                st: lines_searched(
                    old(self)@.source,
                    path@,
                    line_seq(text@),
                    0,
                    old(self)@.st,
                ).0,
                ..old(self)@
            }),
            stop == lines_searched(
                old(self)@.source,
                path@,
                line_seq(text@),
                0,
                old(self)@.st,
            ).1,
    {
        let ls = lines(text);
        let ghost all = ls.deep_view();
        let ghost first = self@;
        let ghost goal = lines_searched(first.source, path@, all, 0, first.st);
        let mut i: usize = 0;
        while i < ls.len()
            invariant
                i <= ls@.len(),
                all == ls.deep_view(),
                all == line_seq(text@),
                first == old(self)@,
                self.sound(),
                self.waiting is Nothing,
                self.frames@ == old(self).frames@,
                self@ == (GrepWalkView { st: self@.st, ..first }),
                goal == lines_searched(first.source, path@, all, 0, first.st),
                goal == lines_searched(first.source, path@, all, i as int, self@.st),
            decreases ls@.len() - i,
        {
            assert(all[i as int] == ls@[i as int]@);
            if is_match(&self.re, ls[i].as_str()) {
                if self.results.len() >= MAX_RESULTS {
                    self.truncated = true;
                    return true;
                }
                let ghost before = self@.st.results;
                let bare = trim_end(ls[i].as_str());
                let shown = clip(bare.as_str(), 200);
                let item = Json::object().with("file", Json::text(path)).with(
                    "line",
                    Json::number(i as u64 + 1),
                ).with("text", Json::Text(shown));
                self.results.push(item);
                assert(self@.st.results =~= before.push(item@));
            }
            i = i + 1;
        }
        false
    }

    /// What was found.
    pub fn finish(self) -> (r: Json)
        ensures
            r@ == grep_tree(self@.st),
    {
        let truncated = self.truncated;
        Json::object().with("matches", Json::array(self.results)).with(
            "truncated",
            Json::Bool(truncated),
        )
    }
}

/// What a search of contents gives.
pub open spec fn grep_tree(st: GrepView) -> Tree {
    object().with("matches"@, Tree::Array(st.results)).with("truncated"@, Tree::Bool(st.truncated))
}

/// Searches the contents of files for a regular expression.
#[derive(Debug, Clone, Copy, PartialEq, Eq, Structural)]
pub struct GrepTool;

impl Tool for GrepTool {
    open spec fn named(&self) -> Seq<char> {
        "grep"@
    }

    open spec fn described(&self) -> DescriptionView {
        DescriptionView {
            name: "grep"@,
            description: "Search file contents under a directory for a regex pattern."@,
            parameters: object().with("type"@, Tree::Text("object"@)).with(
                "properties"@,
                object().with(
                    "pattern"@,
                    object().with("type"@, Tree::Text("string"@)).with(
                        "description"@,
                        Tree::Text("regex pattern"@),
                    ),
                ).with(
                    "path"@,
                    object().with("type"@, Tree::Text("string"@)).with(
                        "description"@,
                        Tree::Text("directory to search (default: workspace)"@),
                    ),
                ),
            ).with("required"@, Tree::Array(word_trees(seq!["pattern"@]))),
        }
    }

    open spec fn listed(&self, ctx: CallView) -> bool {
        true
    }

    fn id(&self) -> (r: String) {
        "grep".to_owned()
    }

    fn description(&self) -> (r: ToolDescription) {
        let list1: Vec<&'static str> = vec!["pattern"];
        assert(word_views(list1@) =~= seq!["pattern"@]);
        let parameters = Json::object().with("type", Json::text("object")).with(
            "properties",
            Json::object().with(
                "pattern",
                Json::object().with("type", Json::text("string")).with(
                    "description",
                    Json::text("regex pattern"),
                ),
            ).with(
                "path",
                Json::object().with("type", Json::text("string")).with(
                    "description",
                    Json::text("directory to search (default: workspace)"),
                ),
            ),
        ).with("required", words(list1));
        ToolDescription::new(
            "grep",
            "Search file contents under a directory for a regex pattern.",
            parameters,
        )
    }

    fn should_list(&self, ctx: &ToolCallContext) -> (r: bool) {
        true
    }
}

/// Where a search of contents begins: the directory of the call, or the path that is named, seen
/// from there.
pub open spec fn grep_root(cwd: Seq<char>, args: Tree) -> Seq<char> {
    match args.text_at("path"@) {
        Some(p) => path::under(cwd, p),
        None => cwd,
    }
}

/// Whether a message says why a text is no regular expression.
pub closed spec fn regex_refused(pattern: Seq<char>, m: String) -> bool {
    exists|source: &str|
        source@ == pattern && #[trigger] call_ensures(
            compile,
            (source,),
            Err::<regex::Regex, String>(m),
        )
}

/// Whether an error tells why a text is no regular expression.
pub open spec fn grep_refusal(pattern: Seq<char>, e: ErrorView) -> bool {
    exists|m: String| #[trigger]
        regex_refused(pattern, m) && e == failed("无效的正则："@ + m@)
}

/// Whether an error tells why a text is no glob pattern.
pub open spec fn glob_refusal(pattern: Seq<char>, e: ErrorView) -> bool {
    exists|m: String| #[trigger]
        glob_refused(pattern, m) && e == failed("无效的 glob："@ + m@)
}

/// Whether a message says why a text is no glob pattern.
pub closed spec fn glob_refused(pattern: Seq<char>, m: String) -> bool {
    exists|source: &str|
        source@ == pattern && #[trigger] call_ensures(
            compile_glob,
            (source,),
            Err::<glob::Pattern, String>(m),
        )
}

impl GrepTool {
    /// A search with a regular expression that was made, or why there is none.
    pub fn begin(
        &self,
        ctx: &ToolCallContext,
        args: &Json,
        compiled: Result<regex::Regex, String>,
    ) -> (r: Result<GrepWalk, ToolError>)
        ensures
            match compiled {
                Err(m) => r matches Err(e) && e@ == failed("无效的正则："@ + m@),
                Ok(re) => {
                    &&& r matches Ok(w)
                    &&& w.sound()
                    &&& w@.source == regex_source(re)
                    &&& forall|fs: Answers| #[trigger]
                        outcome(fs, w@) == walked(
                            fs,
                            regex_source(re),
                            grep_root(ctx@.cwd, args@),
                            (MAX_DEPTH + 1) as nat,
                            nothing_found(),
                        )
                },
            },
    {
        match compiled {
            Err(m) => {
                let message = concat2("无效的正则：", m.as_str());
                Err(ToolError::execution(message.as_str()))
            },
            Ok(re) => match args.str_at("path") {
                Some(p) => {
                    let root = path::join(ctx.cwd.as_str(), p);
                    Ok(GrepWalk::new(re, root.as_str()))
                },
                None => Ok(GrepWalk::new(re, ctx.cwd.as_str())),
            },
        }
    }

    /// Begins a search. Whether the pattern is a regular expression is for the `regex` crate to
    /// say.
    pub fn start(&self, ctx: &ToolCallContext, args: &Json) -> (r: Result<GrepWalk, ToolError>)
        ensures
            match args@.text_at("pattern"@) {
                None => r matches Err(e) && e@ == failed("缺少 pattern 参数"@),
                Some(pattern) => match r {
                    Ok(w) => {
                        &&& w.sound()
                        &&& w@.source == pattern
                        &&& forall|fs: Answers| #[trigger]
                            outcome(fs, w@) == walked(
                                fs,
                                pattern,
                                grep_root(ctx@.cwd, args@),
                                (MAX_DEPTH + 1) as nat,
                                nothing_found(),
                            )
                    },
                    Err(e) => grep_refusal(pattern, e@),
                },
            },
    {
        match args.str_at("pattern") {
            None => Err(ToolError::execution("缺少 pattern 参数")),
            Some(pattern) => {
                let compiled = compile(pattern);
                let ghost given = compiled;
                let r = self.begin(ctx, args, compiled);
                proof {
                    if given is Err {
                        assert(regex_refused(pattern@, given->Err_0) && r->Err_0@ == failed(
                            "无效的正则："@ + given->Err_0@,
                        ));
                        assert(grep_refusal(pattern@, r->Err_0@));
                    }
                }
                r
            },
        }
    }
}

proof fn lemma_lines_bounded(
    source: Seq<char>,
    path: Seq<char>,
    ls: Seq<Seq<char>>,
    from: int,
    st: GrepView,
)
    requires
        st.results.len() <= MAX_RESULTS,
    ensures
        lines_searched(source, path, ls, from, st).0.results.len() <= MAX_RESULTS,
        lines_searched(source, path, ls, from, st).1 ==> lines_searched(
            source,
            path,
            ls,
            from,
            st,
        ).0.truncated,
    decreases ls.len() - from,
{
    if 0 <= from < ls.len() {
        if !regex_matches(source, ls[from]) {
            lemma_lines_bounded(source, path, ls, from + 1, st);
        } else if st.results.len() < MAX_RESULTS {
            lemma_lines_bounded(
                source,
                path,
                ls,
                from + 1,
                GrepView {
                    results: st.results.push(found_line(path, (from + 1) as nat, ls[from])),
                    ..st
                },
            );
        }
    }
}

/// However large the tree, no more is found than the limit allows.
pub proof fn lemma_grep_is_bounded(
    fs: Answers,
    source: Seq<char>,
    dir: Seq<char>,
    left: nat,
    st: GrepView,
)
    requires
        st.results.len() <= MAX_RESULTS,
    ensures
        walked(fs, source, dir, left, st).results.len() <= MAX_RESULTS,
    decreases left, 0nat, 0nat,
{
    if left > 0 && st.files < MAX_FILES && st.results.len() < MAX_RESULTS {
        match (fs.listing)(dir) {
            Some(entries) => {
                lemma_siblings_bounded(fs, source, entries, (left - 1) as nat, st);
            },
            None => {},
        }
    }
}

proof fn lemma_siblings_bounded(
    fs: Answers,
    source: Seq<char>,
    entries: Seq<EntryView>,
    left: nat,
    st: GrepView,
)
    requires
        st.results.len() <= MAX_RESULTS,
    ensures
        siblings(fs, source, entries, left, st).results.len() <= MAX_RESULTS,
    decreases left, 1nat, entries.len(),
{
    if entries.len() > 0 {
        let e = entries[0];
        let others = entries.drop_first();
        if e.is_dir {
            if entered(e.name) {
                lemma_grep_is_bounded(fs, source, e.path, left, st);
                lemma_siblings_bounded(
                    fs,
                    source,
                    others,
                    left,
                    walked(fs, source, e.path, left, st),
                );
            } else {
                lemma_siblings_bounded(fs, source, others, left, st);
            }
        } else {
            let seen = GrepView { files: one_more(st.files), ..st };
            if hidden(e.name) {
                lemma_siblings_bounded(fs, source, others, left, seen);
            } else {
                match (fs.content)(e.path) {
                    Some(text) => {
                        lemma_lines_bounded(source, e.path, line_seq(text), 0, seen);
                    },
                    None => {},
                }
                let (after, stop) = file_searched(source, e.path, (fs.content)(e.path), seen);
                if !stop {
                    lemma_siblings_bounded(fs, source, others, left, after);
                }
            }
        }
    }
}

// ---------- what a search goes through ----------

/// The files below a directory down to `left` levels, in the order of the listings. Directories
/// that are hidden or skipped are not entered; hidden files are left out, unless all are wanted.
pub open spec fn files_below(fs: Answers, dir: Seq<char>, left: nat, all: bool) -> Seq<EntryView>
    decreases left, 0nat, 0nat,
{
    if left == 0 {
        Seq::empty()
    } else {
        match (fs.listing)(dir) {
            Some(entries) => files_among(fs, entries, (left - 1) as nat, all),
            None => Seq::empty(),
        }
    }
}

/// The files among entries and below them.
pub open spec fn files_among(fs: Answers, entries: Seq<EntryView>, left: nat, all: bool) -> Seq<
    EntryView,
>
    decreases left, 1nat, entries.len(),
{
    if entries.len() == 0 {
        Seq::empty()
    } else {
        let e = entries[0];
        let here = if e.is_dir {
            if entered(e.name) {
                files_below(fs, e.path, left, all)
            } else {
                Seq::empty()
            }
        } else if hidden(e.name) && !all {
            Seq::empty()
        } else {
            seq![e]
        };
        here + files_among(fs, entries.drop_first(), left, all)
    }
}

/// The matching lines of a file from the given one on.
pub open spec fn line_hits(source: Seq<char>, path: Seq<char>, ls: Seq<Seq<char>>, from: int) -> Seq<
    Tree,
>
    decreases ls.len() - from,
{
    if from < 0 || from >= ls.len() {
        Seq::empty()
    } else if regex_matches(source, ls[from]) {
        seq![found_line(path, (from + 1) as nat, ls[from])] + line_hits(source, path, ls, from + 1)
    } else {
        line_hits(source, path, ls, from + 1)
    }
}

/// The matching lines of a file; none where it cannot be read.
pub open spec fn file_hits(fs: Answers, source: Seq<char>, path: Seq<char>) -> Seq<Tree> {
    match (fs.content)(path) {
        Some(text) => line_hits(source, path, line_seq(text), 0),
        None => Seq::empty(),
    }
}

/// The matching lines of files, file after file.
pub open spec fn hits(fs: Answers, source: Seq<char>, files: Seq<EntryView>) -> Seq<Tree>
    decreases files.len(),
{
    if files.len() == 0 {
        Seq::empty()
    } else {
        hits(fs, source, files.drop_last()) + file_hits(fs, source, files.last().path)
    }
}

/// The matching lines of files are those of the first ones, then those of the others.
pub proof fn lemma_hits_add(fs: Answers, source: Seq<char>, a: Seq<EntryView>, b: Seq<EntryView>)
    ensures
        hits(fs, source, a + b) == hits(fs, source, a) + hits(fs, source, b),
    decreases b.len(),
{
    if b.len() == 0 {
        assert(a + b =~= a);
        assert(hits(fs, source, a) + hits(fs, source, b) =~= hits(fs, source, a));
    } else {
        assert((a + b).drop_last() =~= a + b.drop_last());
        assert((a + b).last() == b.last());
        lemma_hits_add(fs, source, a, b.drop_last());
        assert(hits(fs, source, a + b) =~= hits(fs, source, a) + hits(fs, source, b));
    }
}

proof fn lemma_lines_complete(
    source: Seq<char>,
    path: Seq<char>,
    ls: Seq<Seq<char>>,
    from: int,
    st: GrepView,
)
    ensures
        ({
            let (after, stop) = lines_searched(source, path, ls, from, st);
            &&& st.truncated || stop ==> after.truncated
            &&& !after.truncated ==> after.results == st.results + line_hits(source, path, ls, from)
        }),
    decreases ls.len() - from,
{
    let (after, stop) = lines_searched(source, path, ls, from, st);
    if 0 <= from < ls.len() {
        if !regex_matches(source, ls[from]) {
            lemma_lines_complete(source, path, ls, from + 1, st);
        } else if st.results.len() < MAX_RESULTS {
            let hit = found_line(path, (from + 1) as nat, ls[from]);
            let more = GrepView { results: st.results.push(hit), ..st };
            lemma_lines_complete(source, path, ls, from + 1, more);
            if !after.truncated {
                assert(after.results =~= st.results + line_hits(source, path, ls, from));
            }
        }
    } else {
        assert(st.results + line_hits(source, path, ls, from) =~= st.results);
    }
}

/// Where a search of contents was not cut off, it has found every matching line of every file
/// below the directory, each once and in order, and nothing in hidden files or in directories
/// that are hidden or skipped.
pub proof fn lemma_grep_is_complete(
    fs: Answers,
    source: Seq<char>,
    dir: Seq<char>,
    left: nat,
    st: GrepView,
)
    ensures
        st.truncated ==> walked(fs, source, dir, left, st).truncated,
        !walked(fs, source, dir, left, st).truncated ==> walked(fs, source, dir, left, st).results
            == st.results + hits(fs, source, files_below(fs, dir, left, false)),
    decreases left, 0nat, 0nat,
{
    if left > 0 && st.files < MAX_FILES && st.results.len() < MAX_RESULTS {
        match (fs.listing)(dir) {
            Some(entries) => {
                lemma_siblings_complete(fs, source, entries, (left - 1) as nat, st);
            },
            None => {
                assert(st.results + hits(fs, source, Seq::empty()) =~= st.results);
            },
        }
    }
}

proof fn lemma_siblings_complete(
    fs: Answers,
    source: Seq<char>,
    entries: Seq<EntryView>,
    left: nat,
    st: GrepView,
)
    ensures
        st.truncated ==> siblings(fs, source, entries, left, st).truncated,
        !siblings(fs, source, entries, left, st).truncated ==> siblings(
            fs,
            source,
            entries,
            left,
            st,
        ).results == st.results + hits(fs, source, files_among(fs, entries, left, false)),
    decreases left, 1nat, entries.len(),
{
    let end = siblings(fs, source, entries, left, st);
    if entries.len() == 0 {
        assert(st.results + hits(fs, source, Seq::empty()) =~= st.results);
    } else {
        let e = entries[0];
        let others = entries.drop_first();
        let rest = files_among(fs, others, left, false);
        let none: Seq<EntryView> = Seq::empty();
        if e.is_dir {
            if entered(e.name) {
                let mid = walked(fs, source, e.path, left, st);
                let here = files_below(fs, e.path, left, false);
                lemma_grep_is_complete(fs, source, e.path, left, st);
                lemma_siblings_complete(fs, source, others, left, mid);
                lemma_hits_add(fs, source, here, rest);
                if !end.truncated {
                    assert(end.results =~= st.results + hits(fs, source, here + rest));
                }
            } else {
                lemma_siblings_complete(fs, source, others, left, st);
                assert(none + rest =~= rest);
            }
        } else {
            let seen = GrepView { files: one_more(st.files), ..st };
            if hidden(e.name) {
                lemma_siblings_complete(fs, source, others, left, seen);
                assert(none + rest =~= rest);
            } else {
                let (mid, stop) = file_searched(source, e.path, (fs.content)(e.path), seen);
                match (fs.content)(e.path) {
                    Some(text) => {
                        lemma_lines_complete(source, e.path, line_seq(text), 0, seen);
                    },
                    None => {
                        assert(seen.results + file_hits(fs, source, e.path) =~= seen.results);
                    },
                }
                if !stop {
                    lemma_siblings_complete(fs, source, others, left, mid);
                }
                let one = seq![e];
                assert(one.drop_last() =~= none);
                assert(hits(fs, source, none) =~= Seq::empty());
                assert(hits(fs, source, one) =~= file_hits(fs, source, e.path));
                lemma_hits_add(fs, source, one, rest);
                if !end.truncated {
                    assert(end.results =~= st.results + hits(fs, source, one + rest));
                }
            }
        }
    }
}

// ---------- listing files by their paths ----------

/// What a search of paths has found so far.
#[verifier::ext_equal]
pub struct GlobView {
    /// How many files were seen, up to the limit.
    pub files: nat,
    pub truncated: bool,
    pub found: Seq<Seq<char>>,
}

/// Whether a file is found: by its path, seen from a directory, or by its name.
pub open spec fn file_matches(source: Seq<char>, base: Seq<char>, e: EntryView) -> bool {
    glob_matches(source, path::seen_from(e.path, base)) || glob_matches(source, e.name)
}

/// What a search of paths has found after a directory, when `left` levels may still be entered.
pub open spec fn glob_walked(
    fs: Answers,
    source: Seq<char>,
    base: Seq<char>,
    dir: Seq<char>,
    left: nat,
    st: GlobView,
) -> GlobView
    decreases left, 0nat, 0nat,
{
    if left == 0 || st.files >= MAX_FILES {
        GlobView { truncated: true, ..st }
    } else {
        match (fs.listing)(dir) {
            Some(entries) => glob_siblings(fs, source, base, entries, (left - 1) as nat, st),
            None => st,
        }
    }
}

/// What a search of paths has found after some entries of a directory. Where there are too many
/// results, the rest of the directory is left out.
pub open spec fn glob_siblings(
    fs: Answers,
    source: Seq<char>,
    base: Seq<char>,
    entries: Seq<EntryView>,
    left: nat,
    st: GlobView,
) -> GlobView
    decreases left, 1nat, entries.len(),
{
    if entries.len() == 0 {
        st
    } else {
        let e = entries[0];
        let others = entries.drop_first();
        if e.is_dir {
            if entered(e.name) {
                glob_siblings(
                    fs,
                    source,
                    base,
                    others,
                    left,
                    glob_walked(fs, source, base, e.path, left, st),
                )
            } else {
                glob_siblings(fs, source, base, others, left, st)
            }
        } else {
            let seen = GlobView { files: one_more(st.files), ..st };
            if !file_matches(source, base, e) {
                glob_siblings(fs, source, base, others, left, seen)
            } else if seen.found.len() >= MAX_RESULTS {
                GlobView { truncated: true, ..seen }
            } else {
                glob_siblings(
                    fs,
                    source,
                    base,
                    others,
                    left,
                    GlobView { found: seen.found.push(path::seen_from(e.path, base)), ..seen },
                )
            }
        }
    }
}

/// What a search of paths has found after all directories that it is in.
pub open spec fn glob_unwound(
    fs: Answers,
    source: Seq<char>,
    base: Seq<char>,
    frames: Seq<FrameView>,
    st: GlobView,
) -> GlobView
    decreases frames.len(),
{
    if frames.len() == 0 {
        st
    } else {
        glob_unwound(
            fs,
            source,
            base,
            frames.drop_last(),
            glob_siblings(fs, source, base, frames.last().rest, frames.last().left, st),
        )
    }
}

/// A search of paths.
#[derive(Debug)]
pub struct GlobWalk {
    pattern: glob::Pattern,
    base: String,
    frames: Vec<Frame>,
    waiting: Waiting,
    files_seen: usize,
    truncated: bool,
    found: Vec<String>,
}

/// What a search of paths stands for.
#[verifier::ext_equal]
pub struct GlobWalkView {
    pub source: Seq<char>,
    pub base: Seq<char>,
    pub frames: Seq<FrameView>,
    pub waiting: WaitingView,
    pub st: GlobView,
}

impl View for GlobWalk {
    type V = GlobWalkView;

    closed spec fn view(&self) -> GlobWalkView {
        GlobWalkView {
            source: glob_source(self.pattern),
            base: self.base@,
            frames: self.frames.deep_view(),
            waiting: self.waiting@,
            st: GlobView {
                files: self.files_seen as nat,
                truncated: self.truncated,
                found: self.found.deep_view(),
            },
        }
    }
}

/// What a search of paths will have found in the end, where the tree answers as `fs` does.
pub open spec fn glob_outcome(fs: Answers, v: GlobWalkView) -> GlobView {
    match v.waiting {
        WaitingView::Directory { path, left } => glob_unwound(
            fs,
            v.source,
            v.base,
            v.frames,
            (match (fs.listing)(path) {
                Some(entries) => glob_siblings(fs, v.source, v.base, entries, left, v.st),
                None => v.st,
            }),
        ),
        _ => glob_unwound(fs, v.source, v.base, v.frames, v.st),
    }
}

/// Whether a listing has no backslash in it.
pub open spec fn slashed_entries(entries: Seq<EntryView>) -> bool {
    forall|i: int|
        0 <= i < entries.len() ==> slashed((#[trigger] entries[i]).name) && slashed(entries[i].path)
}

/// Whether what a directory lists has no backslash in it.
pub open spec fn slashed_answer(entries: Option<Seq<EntryView>>) -> bool {
    match entries {
        Some(es) => slashed_entries(es),
        None => true,
    }
}

/// Whether a search of paths has to do with no backslash, so that all systems find the same.
pub open spec fn slashed_walk(v: GlobWalkView) -> bool {
    &&& slashed(v.source)
    &&& forall|i: int| 0 <= i < v.frames.len() ==> slashed_entries((#[trigger] v.frames[i]).rest)
}

proof fn lemma_slashed_step(before: GlobWalkView, after: GlobWalkView)
    requires
        slashed_walk(before),
        before.frames.len() > 0,
        after.source == before.source,
        after.frames.len() == before.frames.len(),
        after.frames.drop_last() == before.frames.drop_last(),
        before.frames.last().rest.len() > 0,
        after.frames.last().rest == before.frames.last().rest.drop_first(),
    ensures
        slashed_walk(after),
        slashed(before.frames.last().rest[0].name),
        slashed(before.frames.last().rest[0].path),
{
    let n = before.frames.len() - 1;
    let rest = before.frames[n].rest;
    assert(slashed_entries(rest));
    assert forall|i: int| 0 <= i < after.frames.len() implies slashed_entries(
        (#[trigger] after.frames[i]).rest,
    ) by {
        if i < n {
            assert(after.frames.drop_last()[i] == before.frames.drop_last()[i]);
            assert(slashed_entries(before.frames[i].rest));
        } else {
            assert forall|k: int| 0 <= k < rest.len() - 1 implies slashed(
                (#[trigger] rest.drop_first()[k]).name,
            ) && slashed(rest.drop_first()[k].path) by {
                assert(rest.drop_first()[k] == rest[k + 1]);
            }
        }
    }
}

proof fn lemma_slashed_part(s: Seq<char>, from: int)
    requires
        slashed(s),
        0 <= from <= s.len(),
    ensures
        slashed(s.skip(from)),
{
    let t = s.skip(from);
    assert forall|i: int| 0 <= i < t.len() implies t[i] != '\\' by {
        assert(s.contains(s[i + from]));
    }
}

proof fn lemma_slashed_leading(s: Seq<char>)
    requires
        slashed(s),
    ensures
        slashed(path::trimmed_front(s)),
    decreases s.len(),
{
    if s.len() > 0 && s[0] == '/' {
        lemma_slashed_part(s, 1);
        lemma_slashed_leading(s.skip(1));
    } else if s.len() >= 2 && s[0] == '.' && s[1] == '/' {
        lemma_slashed_part(s, 2);
        lemma_slashed_leading(s.skip(2));
    }
}

proof fn lemma_slashed_relative(p: Seq<char>, dir: Seq<char>)
    requires
        slashed(p),
    ensures
        slashed(path::seen_from(p, dir)),
{
    reveal_strlit("");
    reveal_strlit("/");
    if p == dir {
    } else if dir.len() > 0 && dir.last() == '/' && begins(p, dir) {
        lemma_slashed_part(p, dir.len() as int);
        lemma_slashed_leading(p.skip(dir.len() as int));
    } else if begins(p, dir + "/"@) {
        lemma_slashed_part(p, dir.len() as int + 1);
        lemma_slashed_leading(p.skip(dir.len() as int + 1));
    }
}

/// A search of paths that has found nothing yet.
pub open spec fn no_paths() -> GlobView {
    GlobView { files: 0, truncated: false, found: Seq::empty() }
}

/// What a search of paths gives.
pub open spec fn glob_tree(st: GlobView) -> Tree {
    object().with("files"@, Tree::Array(word_trees(st.found))).with(
        "truncated"@,
        Tree::Bool(st.truncated),
    )
}

impl GlobWalk {
    /// The frames are in order, and no file is read.
    pub closed spec fn sound(&self) -> bool {
        &&& all_sound(self.frames@)
        &&& !(self.waiting is File)
        &&& self.files_seen <= MAX_FILES
    }

    /// A search below a root; paths are seen from `base`.
    pub fn new(pattern: glob::Pattern, root: &str, base: &str) -> (r: GlobWalk)
        ensures
            r.sound(),
            r@.source == glob_source(pattern),
            r@.base == base@,
            r@.frames.len() == 0,
            forall|fs: Answers| #[trigger]
                glob_outcome(fs, r@) == glob_walked(
                    fs,
                    glob_source(pattern),
                    base@,
                    root@,
                    (MAX_DEPTH + 1) as nat,
                    no_paths(),
                ),
    {
        let r = GlobWalk {
            pattern,
            base: base.to_owned(),
            frames: Vec::new(),
            waiting: Waiting::Directory { path: root.to_owned(), left: MAX_DEPTH },
            files_seen: 0,
            truncated: false,
            found: Vec::new(),
        };
        assert(r@.frames =~= Seq::empty());
        assert(r@.st =~= no_paths());
        r
    }

    /// The next question. What will have been found in the end is not changed by asking, unless a
    /// backslash leaves it to the system what matches.
    pub fn next(&mut self) -> (r: Ask)
        requires
            old(self).sound(),
        ensures
            final(self).sound(),
            final(self)@.source == old(self)@.source,
            final(self)@.base == old(self)@.base,
            asks(final(self)@.waiting, r),
            slashed_walk(old(self)@) ==> slashed_walk(final(self)@),
            slashed_walk(old(self)@) ==> forall|fs: Answers| #[trigger]
                glob_outcome(fs, final(self)@) == glob_outcome(fs, old(self)@),
            r is Done ==> forall|fs: Answers| #[trigger]
                glob_outcome(fs, final(self)@) == final(self)@.st,
    {
        match &self.waiting {
            Waiting::Directory { path, .. } => {
                return Ask::List(path.clone());
            },
            _ => {},
        }
        let ghost first = self@;
        loop
            invariant
                self.sound(),
                self.waiting is Nothing,
                first == old(self)@,
                self@.source == first.source,
                self@.base == first.base,
                slashed_walk(first) ==> slashed_walk(self@),
                forall|fs: Answers|
                    slashed_walk(first) ==> #[trigger] glob_outcome(fs, self@) == glob_outcome(
                        fs,
                        first,
                    ),
            decreases workload(self@.frames),
        {
            let ghost before = self@;
            let mut frame = match self.frames.pop() {
                Some(f) => f,
                None => {
                    assert(before.frames.len() == 0);
                    assert(self@.frames =~= before.frames);
                    return Ask::Done;
                },
            };
            assert(before.frames.last() == frame@);
            assert(self@.frames =~= before.frames.drop_last());
            let ghost top = frame@;
            match frame.take() {
                None => {
                    assert forall|fs: Answers| slashed_walk(first) implies #[trigger]
                        glob_outcome(fs, self@) == glob_outcome(fs, first) by {
                        assert(glob_siblings(
                            fs,
                            before.source,
                            before.base,
                            top.rest,
                            top.left,
                            before.st,
                        ) == before.st);
                        assert(glob_outcome(fs, before) == glob_outcome(fs, self@));
                    }
                },
                Some(e) => {
                    let left = frame.left;
                    let ghost below = self@.frames;
                    let ghost now = frame@;
                    self.frames.push(frame);
                    assert(self@.frames =~= below.push(now));
                    assert(self@.frames.drop_last() =~= below);
                    proof {
                        if slashed_walk(first) {
                            lemma_slashed_step(before, self@);
                        }
                    }
                    if e.is_dir {
                        if enters(e.name.as_str()) {
                            if left == 0 || self.files_seen >= MAX_FILES {
                                self.truncated = true;
                                assert forall|fs: Answers| slashed_walk(first) implies #[trigger]
                                    glob_outcome(fs, self@) == glob_outcome(fs, first) by {
                                    assert(glob_walked(
                                        fs,
                                        before.source,
                                        before.base,
                                        e@.path,
                                        top.left,
                                        before.st,
                                    ) == self@.st);
                                    assert(glob_outcome(fs, before) == glob_outcome(fs, self@));
                                }
                            } else {
                                let path = e.path;
                                let ask = path.clone();
                                let ghost to = path@;
                                self.waiting = Waiting::Directory { path, left: left - 1 };
                                assert forall|fs: Answers| slashed_walk(first) implies #[trigger]
                                    glob_outcome(fs, self@) == glob_outcome(fs, first) by {
                                    let inside = glob_walked(
                                        fs,
                                        before.source,
                                        before.base,
                                        to,
                                        top.left,
                                        before.st,
                                    );
                                    let end = glob_unwound(
                                        fs,
                                        before.source,
                                        before.base,
                                        below,
                                        glob_siblings(
                                            fs,
                                            before.source,
                                            before.base,
                                            now.rest,
                                            now.left,
                                            inside,
                                        ),
                                    );
                                    assert(glob_unwound(
                                        fs,
                                        before.source,
                                        before.base,
                                        before.frames,
                                        before.st,
                                    ) == end);
                                    assert(glob_unwound(
                                        fs,
                                        before.source,
                                        before.base,
                                        self@.frames,
                                        inside,
                                    ) == end);
                                    assert(glob_outcome(fs, before) == glob_outcome(fs, self@));
                                }
                                return Ask::List(ask);
                            }
                        } else {
                            assert forall|fs: Answers| slashed_walk(first) implies #[trigger]
                                glob_outcome(fs, self@) == glob_outcome(fs, first) by {
                                assert(glob_outcome(fs, before) == glob_outcome(fs, self@));
                            }
                        }
                    } else {
                        if self.files_seen < MAX_FILES {
                            self.files_seen = self.files_seen + 1;
                        }
                        let ghost seen = GlobView { files: one_more(before.st.files), ..before.st };
                        assert(self@.st =~= seen);
                        let rel = path::relative(e.path.as_str(), self.base.as_str());
                        proof {
                            if slashed_walk(first) {
                                lemma_slashed_relative(e.path@, self.base@);
                            }
                        }
                        if glob_match(&self.pattern, rel.as_str()) || glob_match(
                            &self.pattern,
                            e.name.as_str(),
                        ) {
                            if self.found.len() >= MAX_RESULTS {
                                self.truncated = true;
                                let _ = self.frames.pop();
                                assert(self@.frames =~= below);
                            } else {
                                self.found.push(rel);
                                assert(self@.st.found =~= seen.found.push(rel@));
                            }
                        }
                        assert forall|fs: Answers| slashed_walk(first) implies #[trigger]
                            glob_outcome(fs, self@) == glob_outcome(fs, first) by {
                            assert(glob_outcome(fs, before) == glob_outcome(fs, self@));
                        }
                    }
                },
            }
        }
    }

    /// Takes what the directory lists that was asked for; nothing where it cannot be read.
    pub fn listed(&mut self, entries: Option<Vec<Entry>>)
        requires
            old(self).sound(),
        ensures
            final(self).sound(),
            final(self)@.source == old(self)@.source,
            final(self)@.base == old(self)@.base,
            slashed_walk(old(self)@) && slashed_answer(entries.deep_view()) ==> slashed_walk(
                final(self)@,
            ),
            match old(self)@.waiting {
                WaitingView::Directory { path, .. } => {
                    &&& final(self)@.waiting is Nothing
                    &&& forall|fs: Answers|
                        (fs.listing)(path) == entries.deep_view() ==> #[trigger] glob_outcome(
                            fs,
                            final(self)@,
                        ) == glob_outcome(fs, old(self)@)
                },
                _ => final(self)@ == old(self)@,
            },
    {
        let ghost before = self@;
        let left = match &self.waiting {
            Waiting::Directory { left, .. } => *left,
            _ => {
                return;
            },
        };
        self.waiting = Waiting::Nothing;
        let ghost answer = entries.deep_view();
        match entries {
            Some(v) => {
                let frame = Frame { left, entries: v, next: 0 };
                assert(frame@.rest =~= v.deep_view());
                self.frames.push(frame);
                assert(self@.frames =~= before.frames.push(frame@));
                assert(self@.frames.drop_last() =~= before.frames);
                proof {
                    assert(answer == Some(frame@.rest));
                    if slashed_walk(before) && slashed_answer(answer) {
                        assert forall|k: int| 0 <= k < self@.frames.len() implies slashed_entries(
                            (#[trigger] self@.frames[k]).rest,
                        ) by {
                            if k < before.frames.len() {
                                assert(self@.frames[k] == before.frames[k]);
                            }
                        }
                        assert(slashed_walk(self@));
                    }
                }
            },
            None => {
                assert(self@.frames =~= before.frames);
            },
        }
    }

    /// What was found.
    pub fn finish(self) -> (r: Json)
        ensures
            r@ == glob_tree(self@.st),
    {
        let mut out: Vec<Json> = Vec::new();
        let mut i: usize = 0;
        while i < self.found.len()
            invariant
                i <= self.found@.len(),
                out@.len() == i,
                forall|k: int| 0 <= k < i ==> (#[trigger] out@[k])@ == Tree::Text(self.found@[k]@),
            decreases self.found@.len() - i,
        {
            out.push(Json::text(self.found[i].as_str()));
            i = i + 1;
        }
        assert(out.deep_view() =~= word_trees(self@.st.found));
        Json::object().with("files", Json::array(out)).with(
            "truncated",
            Json::Bool(self.truncated),
        )
    }
}

/// Lists the files whose paths match a pattern.
#[derive(Debug, Clone, Copy, PartialEq, Eq, Structural)]
pub struct GlobTool;

impl Tool for GlobTool {
    open spec fn named(&self) -> Seq<char> {
        "glob"@
    }

    open spec fn described(&self) -> DescriptionView {
        DescriptionView {
            name: "glob"@,
            description: "List files matching a glob pattern (e.g. `**/*.rs`, `src/*.ts`)."@,
            parameters: object().with("type"@, Tree::Text("object"@)).with(
                "properties"@,
                object().with(
                    "pattern"@,
                    object().with("type"@, Tree::Text("string"@)).with(
                        "description"@,
                        Tree::Text("glob pattern"@),
                    ),
                ),
            ).with("required"@, Tree::Array(word_trees(seq!["pattern"@]))),
        }
    }

    open spec fn listed(&self, ctx: CallView) -> bool {
        true
    }

    fn id(&self) -> (r: String) {
        "glob".to_owned()
    }

    fn description(&self) -> (r: ToolDescription) {
        let list1: Vec<&'static str> = vec!["pattern"];
        assert(word_views(list1@) =~= seq!["pattern"@]);
        let parameters = Json::object().with("type", Json::text("object")).with(
            "properties",
            Json::object().with(
                "pattern",
                Json::object().with("type", Json::text("string")).with(
                    "description",
                    Json::text("glob pattern"),
                ),
            ),
        ).with("required", words(list1));
        ToolDescription::new(
            "glob",
            "List files matching a glob pattern (e.g. `**/*.rs`, `src/*.ts`).",
            parameters,
        )
    }

    fn should_list(&self, ctx: &ToolCallContext) -> (r: bool) {
        true
    }
}

impl GlobTool {
    /// Begins a search in the directory of the call, from which paths are seen.
    pub fn start(&self, ctx: &ToolCallContext, args: &Json) -> (r: Result<GlobWalk, ToolError>)
        ensures
            match args@.text_at("pattern"@) {
                None => r matches Err(e) && e@ == failed("缺少 pattern 参数"@),
                Some(pattern) => match r {
                    Err(e) => {
                        &&& glob_refusal(pattern, e@)
                        &&& slashed(pattern) ==> glob_error(pattern) is Some && e@ == failed(
                            "无效的 glob："@ + glob_error(pattern)->0,
                        )
                    },
                    Ok(w) => {
                        &&& slashed(pattern) ==> glob_error(pattern) is None
                        &&& slashed(pattern) ==> slashed_walk(w@)
                        &&& w.sound()
                        &&& w@.source == pattern
                        &&& w@.base == ctx@.cwd
                        &&& forall|fs: Answers| #[trigger]
                            glob_outcome(fs, w@) == glob_walked(
                                fs,
                                pattern,
                                ctx@.cwd,
                                ctx@.cwd,
                                (MAX_DEPTH + 1) as nat,
                                no_paths(),
                            )
                    },
                },
            },
    {
        match args.str_at("pattern") {
            None => Err(ToolError::execution("缺少 pattern 参数")),
            Some(pattern) => match compile_glob(pattern) {
                Err(m) => {
                    assert(glob_refused(pattern@, m));
                    let message = concat2("无效的 glob：", m.as_str());
                    Err(ToolError::execution(message.as_str()))
                },
                Ok(p) => Ok(GlobWalk::new(p, ctx.cwd.as_str(), ctx.cwd.as_str())),
            },
        }
    }
}

/// However large the tree, no more paths are found than the limit allows.
pub proof fn lemma_glob_is_bounded(
    fs: Answers,
    source: Seq<char>,
    base: Seq<char>,
    dir: Seq<char>,
    left: nat,
    st: GlobView,
)
    requires
        st.found.len() <= MAX_RESULTS,
    ensures
        glob_walked(fs, source, base, dir, left, st).found.len() <= MAX_RESULTS,
    decreases left, 0nat, 0nat,
{
    if left > 0 && st.files < MAX_FILES {
        match (fs.listing)(dir) {
            Some(entries) => {
                lemma_glob_siblings_bounded(fs, source, base, entries, (left - 1) as nat, st);
            },
            None => {},
        }
    }
}

proof fn lemma_glob_siblings_bounded(
    fs: Answers,
    source: Seq<char>,
    base: Seq<char>,
    entries: Seq<EntryView>,
    left: nat,
    st: GlobView,
)
    requires
        st.found.len() <= MAX_RESULTS,
    ensures
        glob_siblings(fs, source, base, entries, left, st).found.len() <= MAX_RESULTS,
    decreases left, 1nat, entries.len(),
{
    if entries.len() > 0 {
        let e = entries[0];
        let others = entries.drop_first();
        let seen = GlobView { files: one_more(st.files), ..st };
        if e.is_dir {
            if entered(e.name) {
                lemma_glob_is_bounded(fs, source, base, e.path, left, st);
                lemma_glob_siblings_bounded(
                    fs,
                    source,
                    base,
                    others,
                    left,
                    glob_walked(fs, source, base, e.path, left, st),
                );
            } else {
                lemma_glob_siblings_bounded(fs, source, base, others, left, st);
            }
        } else if !file_matches(source, base, e) {
            lemma_glob_siblings_bounded(fs, source, base, others, left, seen);
        } else if seen.found.len() < MAX_RESULTS {
            lemma_glob_siblings_bounded(
                fs,
                source,
                base,
                others,
                left,
                GlobView { found: seen.found.push(path::seen_from(e.path, base)), ..seen },
            );
        }
    }
}

/// The paths of the files that match, seen from a directory.
pub open spec fn matching(source: Seq<char>, base: Seq<char>, files: Seq<EntryView>) -> Seq<
    Seq<char>,
>
    decreases files.len(),
{
    if files.len() == 0 {
        Seq::empty()
    } else if file_matches(source, base, files.last()) {
        matching(source, base, files.drop_last()).push(path::seen_from(files.last().path, base))
    } else {
        matching(source, base, files.drop_last())
    }
}

/// The paths that match are those of the first files, then those of the others.
pub proof fn lemma_matching_add(
    source: Seq<char>,
    base: Seq<char>,
    a: Seq<EntryView>,
    b: Seq<EntryView>,
)
    ensures
        matching(source, base, a + b) == matching(source, base, a) + matching(source, base, b),
    decreases b.len(),
{
    if b.len() == 0 {
        assert(a + b =~= a);
        assert(matching(source, base, a) + matching(source, base, b) =~= matching(
            source,
            base,
            a,
        ));
    } else {
        assert((a + b).drop_last() =~= a + b.drop_last());
        assert((a + b).last() == b.last());
        lemma_matching_add(source, base, a, b.drop_last());
        assert(matching(source, base, a + b) =~= matching(source, base, a) + matching(
            source,
            base,
            b,
        ));
    }
}

/// Where a search of paths was not cut off, it has found every matching file below the directory,
/// each once and in order, and nothing in directories that are hidden or skipped.
pub proof fn lemma_glob_is_complete(
    fs: Answers,
    source: Seq<char>,
    base: Seq<char>,
    dir: Seq<char>,
    left: nat,
    st: GlobView,
)
    ensures
        st.truncated ==> glob_walked(fs, source, base, dir, left, st).truncated,
        !glob_walked(fs, source, base, dir, left, st).truncated ==> glob_walked(
            fs,
            source,
            base,
            dir,
            left,
            st,
        ).found == st.found + matching(source, base, files_below(fs, dir, left, true)),
    decreases left, 0nat, 0nat,
{
    if left > 0 && st.files < MAX_FILES {
        match (fs.listing)(dir) {
            Some(entries) => {
                lemma_glob_siblings_complete(fs, source, base, entries, (left - 1) as nat, st);
            },
            None => {
                assert(st.found + matching(source, base, Seq::empty()) =~= st.found);
            },
        }
    }
}

proof fn lemma_glob_siblings_complete(
    fs: Answers,
    source: Seq<char>,
    base: Seq<char>,
    entries: Seq<EntryView>,
    left: nat,
    st: GlobView,
)
    ensures
        st.truncated ==> glob_siblings(fs, source, base, entries, left, st).truncated,
        !glob_siblings(fs, source, base, entries, left, st).truncated ==> glob_siblings(
            fs,
            source,
            base,
            entries,
            left,
            st,
        ).found == st.found + matching(source, base, files_among(fs, entries, left, true)),
    decreases left, 1nat, entries.len(),
{
    let end = glob_siblings(fs, source, base, entries, left, st);
    if entries.len() == 0 {
        assert(st.found + matching(source, base, Seq::empty()) =~= st.found);
    } else {
        let e = entries[0];
        let others = entries.drop_first();
        let rest = files_among(fs, others, left, true);
        let none: Seq<EntryView> = Seq::empty();
        if e.is_dir {
            if entered(e.name) {
                let mid = glob_walked(fs, source, base, e.path, left, st);
                let here = files_below(fs, e.path, left, true);
                lemma_glob_is_complete(fs, source, base, e.path, left, st);
                lemma_glob_siblings_complete(fs, source, base, others, left, mid);
                lemma_matching_add(source, base, here, rest);
                if !end.truncated {
                    assert(end.found =~= st.found + matching(source, base, here + rest));
                }
            } else {
                lemma_glob_siblings_complete(fs, source, base, others, left, st);
                assert(none + rest =~= rest);
            }
        } else {
            let seen = GlobView { files: one_more(st.files), ..st };
            let one = seq![e];
            assert(one.drop_last() =~= none);
            assert(matching(source, base, none) =~= Seq::empty());
            lemma_matching_add(source, base, one, rest);
            if !file_matches(source, base, e) {
                lemma_glob_siblings_complete(fs, source, base, others, left, seen);
                assert(matching(source, base, one) =~= Seq::empty());
                if !end.truncated {
                    assert(end.found =~= st.found + matching(source, base, one + rest));
                }
            } else if st.found.len() < MAX_RESULTS {
                let path = path::seen_from(e.path, base);
                let more = GlobView { found: seen.found.push(path), ..seen };
                lemma_glob_siblings_complete(fs, source, base, others, left, more);
                assert(matching(source, base, one) =~= seq![path]);
                if !end.truncated {
                    assert(end.found =~= st.found + matching(source, base, one + rest));
                }
            }
        }
    }
}

} // verus!
