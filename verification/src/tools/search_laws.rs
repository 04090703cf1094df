//! What a search finds in a tree, line by line and file by file, and when it finds all of it.
use vstd::prelude::*;
use vstd::string::*;

use crate::json::Tree;
use crate::path;
use crate::path_laws::lemma_paths;
use crate::pattern::{glob_matches, regex_matches};
use crate::text::{begins, clipped, trimmed_end};
use crate::tools::search::{
    Answers, EntryView, GlobView, GrepView, MAX_DEPTH, MAX_FILES, MAX_RESULTS, entered, file_hits,
    file_matches, file_searched, files_among, files_below, found_line, glob_siblings, glob_tree,
    glob_walked, grep_root, grep_tree, hidden, hits, lemma_glob_is_complete, lemma_grep_is_complete,
    lemma_hits_add, lemma_matching_add, line_hits, lines_searched, matching, no_paths, nothing_found,
    siblings, skipped, walked,
};

verus! {

// ---------- lines ----------

/// Whether a result tells of a line of a file: the file, the number of the line, counted from one,
/// and its beginning, without the white space behind it.
pub open spec fn tells_line(t: Tree, file: Seq<char>, number: int, line: Seq<char>) -> bool {
    &&& t.text_at("file"@) == Some(file)
    &&& t.number_at("line"@) == Some(number as u64)
    &&& t.text_at("text"@) == Some(clipped(trimmed_end(line), 200))
}

proof fn lemma_line_is_told(file: Seq<char>, number: nat, line: Seq<char>)
    ensures
        tells_line(found_line(file, number, line), file, number as int, line),
{
    reveal_strlit("file");
    reveal_strlit("line");
    reveal_strlit("text");
    assert("file"@[0] == 'f' && "line"@[0] == 'l' && "text"@[0] == 't');
}

/// Every line that matches is found, and told with its own number.
pub proof fn lemma_matching_line_is_found(
    source: Seq<char>,
    file: Seq<char>,
    ls: Seq<Seq<char>>,
    from: int,
    k: int,
)
    requires
        0 <= from <= k < ls.len(),
        regex_matches(source, ls[k]),
    ensures
        exists|i: int|
            0 <= i < line_hits(source, file, ls, from).len() && tells_line(
                #[trigger] line_hits(source, file, ls, from)[i],
                file,
                k + 1,
                ls[k],
            ),
    decreases k - from,
{
    let all = line_hits(source, file, ls, from);
    let rest = line_hits(source, file, ls, from + 1);
    if from == k {
        lemma_line_is_told(file, (k + 1) as nat, ls[k]);
        assert(tells_line(all[0], file, k + 1, ls[k]));
    } else {
        lemma_matching_line_is_found(source, file, ls, from + 1, k);
        let i = choose|i: int|
            0 <= i < rest.len() && tells_line(#[trigger] rest[i], file, k + 1, ls[k]);
        if regex_matches(source, ls[from]) {
            assert(all[i + 1] == rest[i]);
        } else {
            assert(all[i] == rest[i]);
        }
    }
}

/// Everything that is found is a line that matches, told with its own number.
pub proof fn lemma_found_line_matches(
    source: Seq<char>,
    file: Seq<char>,
    ls: Seq<Seq<char>>,
    from: int,
    i: int,
)
    requires
        0 <= from,
        0 <= i < line_hits(source, file, ls, from).len(),
    ensures
        exists|k: int|
            from <= k < ls.len() && regex_matches(source, #[trigger] ls[k]) && tells_line(
                line_hits(source, file, ls, from)[i],
                file,
                k + 1,
                ls[k],
            ),
    decreases ls.len() - from,
{
    let all = line_hits(source, file, ls, from);
    let rest = line_hits(source, file, ls, from + 1);
    let here = regex_matches(source, ls[from]);
    if here && i == 0 {
        lemma_line_is_told(file, (from + 1) as nat, ls[from]);
        assert(all[0] == found_line(file, (from + 1) as nat, ls[from]));
    } else {
        let j = if here {
            i - 1
        } else {
            i
        };
        assert(all[i] == rest[j]);
        lemma_found_line_matches(source, file, ls, from + 1, j);
        let k = choose|k: int|
            from + 1 <= k < ls.len() && regex_matches(source, #[trigger] ls[k]) && tells_line(
                rest[j],
                file,
                k + 1,
                ls[k],
            );
        assert(regex_matches(source, ls[k]));
    }
}

// ---------- files ----------

/// Which directories are never entered: those of version control, of builds and of dependencies, and
/// all that are hidden.
pub proof fn lemma_skipped_directories(name: Seq<char>)
    ensures
        name == ".git"@ || name == "target"@ || name == "node_modules"@ || name == ".ref"@ || name
            == ".venv"@ || name == "dist"@ || name == "build"@ <==> skipped(name),
        name.len() > 0 && name[0] == '.' <==> hidden(name),
        entered(name) <==> !skipped(name) && !hidden(name),
{
    reveal_strlit(".");
    if name.len() > 0 && name[0] == '.' {
        assert(name.take(1) =~= "."@);
    }
    if begins(name, "."@) {
        assert(name.take(1)[0] == '.');
    }
}

proof fn lemma_among(fs: Answers, entries: Seq<EntryView>, left: nat, all: bool, k: int, f: EntryView)
    requires
        0 <= k < entries.len(),
        !entries[k].is_dir && (all || !hidden(entries[k].name)) && f == entries[k] || (
        entries[k].is_dir && entered(entries[k].name) && files_below(
            fs,
            entries[k].path,
            left,
            all,
        ).contains(f)),
    ensures
        files_among(fs, entries, left, all).contains(f),
    decreases entries.len(),
{
    let e = entries[0];
    let others = entries.drop_first();
    let here = if e.is_dir {
        if entered(e.name) {
            files_below(fs, e.path, left, all)
        } else {
            Seq::empty()
        }
    } else if hidden(e.name) && !all {
        Seq::empty()
    } else {
        seq![e]
    };
    let rest = files_among(fs, others, left, all);
    let whole = files_among(fs, entries, left, all);
    assert(whole == here + rest);
    if k == 0 {
        if !e.is_dir {
            assert(here[0] == f);
            assert(whole[0] == f);
        } else {
            let i = choose|i: int| 0 <= i < here.len() && here[i] == f;
            assert(whole[i] == f);
        }
    } else {
        assert(others[k - 1] == entries[k]);
        lemma_among(fs, others, left, all, k - 1, f);
        let i = choose|i: int| 0 <= i < rest.len() && rest[i] == f;
        assert(whole[here.len() + i] == f);
    }
}

/// A file that a directory lists is searched, unless it is hidden; and so is every file below a
/// directory that is listed there and entered.
pub proof fn lemma_listed_files_are_below(
    fs: Answers,
    dir: Seq<char>,
    left: nat,
    all: bool,
    entries: Seq<EntryView>,
    k: int,
    f: EntryView,
)
    requires
        left > 0,
        (fs.listing)(dir) == Some(entries),
        0 <= k < entries.len(),
        !entries[k].is_dir && (all || !hidden(entries[k].name)) && f == entries[k] || (
        entries[k].is_dir && entered(entries[k].name) && files_below(
            fs,
            entries[k].path,
            (left - 1) as nat,
            all,
        ).contains(f)),
    ensures
        files_below(fs, dir, left, all).contains(f),
{
    lemma_among(fs, entries, (left - 1) as nat, all, k, f);
}

/// A file is found by its own path or by its name, and told by its path seen from the base.
pub proof fn lemma_paths_that_match(source: Seq<char>, base: Seq<char>, e: EntryView)
    ensures
        glob_matches(source, e.name) ==> matching(source, base, seq![e]) == seq![
            path::seen_from(e.path, base),
        ],
        glob_matches(source, path::seen_from(e.path, base)) ==> matching(source, base, seq![e])
            == seq![path::seen_from(e.path, base)],
        !glob_matches(source, e.name) && !glob_matches(source, path::seen_from(e.path, base))
            ==> matching(source, base, seq![e]).len() == 0,
{
    assert(seq![e].drop_last() =~= Seq::empty());
    assert(seq![e].last() == e);
    assert(matching(source, base, Seq::empty()) =~= Seq::empty());
    if file_matches(source, base, e) {
        assert(matching(source, base, seq![e]) =~= seq![path::seen_from(e.path, base)]);
    }
}

// ---------- whole searches ----------

/// Whether all that is entered below a directory lies within `left` levels.
pub open spec fn shallow(fs: Answers, dir: Seq<char>, left: nat) -> bool
    decreases left, 0nat, 0nat,
{
    &&& left > 0
    &&& match (fs.listing)(dir) {
        Some(entries) => shallow_among(fs, entries, (left - 1) as nat),
        None => true,
    }
}

/// Whether all that is entered among entries lies within `left` levels.
pub open spec fn shallow_among(fs: Answers, entries: Seq<EntryView>, left: nat) -> bool
    decreases left, 1nat, entries.len(),
{
    if entries.len() == 0 {
        true
    } else {
        &&& entries[0].is_dir && entered(entries[0].name) ==> shallow(fs, entries[0].path, left)
        &&& shallow_among(fs, entries.drop_first(), left)
    }
}

proof fn lemma_whole_lines(
    source: Seq<char>,
    path: Seq<char>,
    ls: Seq<Seq<char>>,
    from: int,
    st: GrepView,
)
    requires
        st.results.len() + line_hits(source, path, ls, from).len() < MAX_RESULTS,
        0 <= from,
    ensures
        ({
            let (after, stop) = lines_searched(source, path, ls, from, st);
            &&& !stop
            &&& after.truncated == st.truncated
            &&& after.files == st.files
            &&& after.results.len() == st.results.len() + line_hits(source, path, ls, from).len()
        }),
    decreases ls.len() - from,
{
    if from < ls.len() {
        if regex_matches(source, ls[from]) {
            let next = GrepView {
                results: st.results.push(found_line(path, (from + 1) as nat, ls[from])),
                ..st
            };
            lemma_whole_lines(source, path, ls, from + 1, next);
        } else {
            lemma_whole_lines(source, path, ls, from + 1, st);
        }
    }
}

proof fn lemma_whole_walk(fs: Answers, source: Seq<char>, dir: Seq<char>, left: nat, st: GrepView)
    requires
        shallow(fs, dir, left),
        st.files + files_below(fs, dir, left, true).len() < MAX_FILES,
        st.results.len() + hits(fs, source, files_below(fs, dir, left, false)).len() < MAX_RESULTS,
    ensures
        ({
            let after = walked(fs, source, dir, left, st);
            &&& after.truncated == st.truncated
            &&& after.files == st.files + files_below(fs, dir, left, true).len()
            &&& after.results.len() == st.results.len() + hits(
                fs,
                source,
                files_below(fs, dir, left, false),
            ).len()
        }),
    decreases left, 0nat, 0nat,
{
    match (fs.listing)(dir) {
        Some(entries) => {
            lemma_whole_siblings(fs, source, entries, (left - 1) as nat, st);
        },
        None => {
            assert(hits(fs, source, files_below(fs, dir, left, false)) =~= Seq::empty());
        },
    }
}

proof fn lemma_whole_siblings(
    fs: Answers,
    source: Seq<char>,
    entries: Seq<EntryView>,
    left: nat,
    st: GrepView,
)
    requires
        shallow_among(fs, entries, left),
        st.files + files_among(fs, entries, left, true).len() < MAX_FILES,
        st.results.len() + hits(fs, source, files_among(fs, entries, left, false)).len()
            < MAX_RESULTS,
    ensures
        ({
            let after = siblings(fs, source, entries, left, st);
            &&& after.truncated == st.truncated
            &&& after.files == st.files + files_among(fs, entries, left, true).len()
            &&& after.results.len() == st.results.len() + hits(
                fs,
                source,
                files_among(fs, entries, left, false),
            ).len()
        }),
    decreases left, 1nat, entries.len(),
{
    if entries.len() == 0 {
        assert(hits(fs, source, files_among(fs, entries, left, false)) =~= Seq::empty());
    } else {
        let e = entries[0];
        let others = entries.drop_first();
        let rest_all = files_among(fs, others, left, true);
        let rest = files_among(fs, others, left, false);
        let none: Seq<EntryView> = Seq::empty();
        if e.is_dir {
            if entered(e.name) {
                let below = files_below(fs, e.path, left, false);
                lemma_hits_add(fs, source, below, rest);
                lemma_whole_walk(fs, source, e.path, left, st);
                lemma_whole_siblings(fs, source, others, left, walked(fs, source, e.path, left, st));
            } else {
                assert(none + rest_all =~= rest_all);
                assert(none + rest =~= rest);
                lemma_whole_siblings(fs, source, others, left, st);
            }
        } else {
            let seen = GrepView { files: st.files + 1, ..st };
            if hidden(e.name) {
                assert(none + rest =~= rest);
                lemma_whole_siblings(fs, source, others, left, seen);
            } else {
                lemma_hits_add(fs, source, seq![e], rest);
                assert(seq![e].drop_last() =~= none);
                assert(hits(fs, source, none) =~= Seq::empty());
                assert(seq![e].last() == e);
                assert(hits(fs, source, seq![e]) =~= file_hits(fs, source, e.path));
                match (fs.content)(e.path) {
                    Some(text) => {
                        lemma_whole_lines(
                            source,
                            e.path,
                            crate::text::line_seq(text),
                            0,
                            seen,
                        );
                    },
                    None => {},
                }
                let (after, stop) = file_searched(source, e.path, (fs.content)(e.path), seen);
                lemma_whole_siblings(fs, source, others, left, after);
            }
        }
    }
}

/// A search of a tree within the limits finds all of it: nothing is cut off, and every matching line
/// of every file that is not hidden is given, in order.
pub proof fn lemma_small_trees_are_searched_whole(fs: Answers, source: Seq<char>, root: Seq<char>)
    requires
        shallow(fs, root, (MAX_DEPTH + 1) as nat),
        files_below(fs, root, (MAX_DEPTH + 1) as nat, true).len() < MAX_FILES,
        hits(fs, source, files_below(fs, root, (MAX_DEPTH + 1) as nat, false)).len() < MAX_RESULTS,
    ensures
        ({
            let t = grep_tree(walked(fs, source, root, (MAX_DEPTH + 1) as nat, nothing_found()));
            &&& t.truth_at("truncated"@) == Some(false)
            &&& t.list_at("matches"@) == Some(
                hits(fs, source, files_below(fs, root, (MAX_DEPTH + 1) as nat, false)),
            )
        }),
        MAX_DEPTH == 10,
        MAX_FILES == 400,
        MAX_RESULTS == 200,
{
    reveal_strlit("matches");
    reveal_strlit("truncated");
    assert("matches"@.len() != "truncated"@.len());
    let left = (MAX_DEPTH + 1) as nat;
    lemma_whole_walk(fs, source, root, left, nothing_found());
    lemma_grep_is_complete(fs, source, root, left, nothing_found());
    let found = hits(fs, source, files_below(fs, root, left, false));
    assert(nothing_found().results + found =~= found);
}

proof fn lemma_whole_glob(
    fs: Answers,
    source: Seq<char>,
    base: Seq<char>,
    dir: Seq<char>,
    left: nat,
    st: GlobView,
)
    requires
        shallow(fs, dir, left),
        st.files + files_below(fs, dir, left, true).len() < MAX_FILES,
        st.found.len() + matching(source, base, files_below(fs, dir, left, true)).len()
            <= MAX_RESULTS,
    ensures
        ({
            let after = glob_walked(fs, source, base, dir, left, st);
            &&& after.truncated == st.truncated
            &&& after.files == st.files + files_below(fs, dir, left, true).len()
            &&& after.found.len() == st.found.len() + matching(
                source,
                base,
                files_below(fs, dir, left, true),
            ).len()
        }),
    decreases left, 0nat, 0nat,
{
    match (fs.listing)(dir) {
        Some(entries) => {
            lemma_whole_glob_siblings(fs, source, base, entries, (left - 1) as nat, st);
        },
        None => {
            assert(matching(source, base, files_below(fs, dir, left, true)) =~= Seq::empty());
        },
    }
}

proof fn lemma_whole_glob_siblings(
    fs: Answers,
    source: Seq<char>,
    base: Seq<char>,
    entries: Seq<EntryView>,
    left: nat,
    st: GlobView,
)
    requires
        shallow_among(fs, entries, left),
        st.files + files_among(fs, entries, left, true).len() < MAX_FILES,
        st.found.len() + matching(source, base, files_among(fs, entries, left, true)).len()
            <= MAX_RESULTS,
    ensures
        ({
            let after = glob_siblings(fs, source, base, entries, left, st);
            &&& after.truncated == st.truncated
            &&& after.files == st.files + files_among(fs, entries, left, true).len()
            &&& after.found.len() == st.found.len() + matching(
                source,
                base,
                files_among(fs, entries, left, true),
            ).len()
        }),
    decreases left, 1nat, entries.len(),
{
    if entries.len() == 0 {
        assert(matching(source, base, files_among(fs, entries, left, true)) =~= Seq::empty());
    } else {
        let e = entries[0];
        let others = entries.drop_first();
        let rest = files_among(fs, others, left, true);
        let none: Seq<EntryView> = Seq::empty();
        if e.is_dir {
            if entered(e.name) {
                let below = files_below(fs, e.path, left, true);
                lemma_matching_add(source, base, below, rest);
                lemma_whole_glob(fs, source, base, e.path, left, st);
                lemma_whole_glob_siblings(
                    fs,
                    source,
                    base,
                    others,
                    left,
                    glob_walked(fs, source, base, e.path, left, st),
                );
            } else {
                assert(none + rest =~= rest);
                lemma_whole_glob_siblings(fs, source, base, others, left, st);
            }
        } else {
            let seen = GlobView { files: st.files + 1, ..st };
            lemma_matching_add(source, base, seq![e], rest);
            assert(seq![e].drop_last() =~= none);
            assert(seq![e].last() == e);
            assert(matching(source, base, none) =~= Seq::empty());
            if file_matches(source, base, e) {
                let next = GlobView {
                    found: seen.found.push(path::seen_from(e.path, base)),
                    ..seen
                };
                lemma_whole_glob_siblings(fs, source, base, others, left, next);
            } else {
                lemma_whole_glob_siblings(fs, source, base, others, left, seen);
            }
        }
    }
}

/// A search of paths in a tree within the limits finds every file that matches, in order, and nothing
/// is cut off.
pub proof fn lemma_small_trees_are_listed_whole(
    fs: Answers,
    source: Seq<char>,
    base: Seq<char>,
    root: Seq<char>,
)
    requires
        shallow(fs, root, (MAX_DEPTH + 1) as nat),
        files_below(fs, root, (MAX_DEPTH + 1) as nat, true).len() < MAX_FILES,
        matching(source, base, files_below(fs, root, (MAX_DEPTH + 1) as nat, true)).len()
            <= MAX_RESULTS,
    ensures
        ({
            let t = glob_tree(
                glob_walked(fs, source, base, root, (MAX_DEPTH + 1) as nat, no_paths()),
            );
            let paths = matching(
                source,
                base,
                files_below(fs, root, (MAX_DEPTH + 1) as nat, true),
            );
            &&& t.truth_at("truncated"@) == Some(false)
            &&& t.list_at("files"@) matches Some(list) && list.len() == paths.len() && (forall|i: int|
                0 <= i < list.len() ==> #[trigger] list[i] == Tree::Text(paths[i]))
        }),
{
    reveal_strlit("files");
    reveal_strlit("truncated");
    assert("files"@.len() != "truncated"@.len());
    let left = (MAX_DEPTH + 1) as nat;
    lemma_whole_glob(fs, source, base, root, left, no_paths());
    lemma_glob_is_complete(fs, source, base, root, left, no_paths());
    let paths = matching(source, base, files_below(fs, root, left, true));
    assert(no_paths().found + paths =~= paths);
}

/// A search begins in the directory of the call, or at the path that is named, seen from there.
pub proof fn lemma_search_roots(cwd: Seq<char>, args: Tree, p: Seq<char>)
    ensures
        args.at("path"@) == Some(Tree::Text(p)) && p.len() > 0 && p[0] == '/' ==> grep_root(cwd, args)
            == p,
        !(args.at("path"@) matches Some(Tree::Text(_))) ==> grep_root(cwd, args) == cwd,
        args.at("path"@) == Some(Tree::Text(p)) && (p.len() == 0 || p[0] != '/') ==> begins(
            grep_root(cwd, args),
            cwd,
        ),
{
    if args.at("path"@) == Some(Tree::Text(p)) && (p.len() == 0 || p[0] != '/') {
        lemma_paths(cwd, p);
    }
}

} // verus!
