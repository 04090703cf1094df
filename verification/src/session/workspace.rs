//! What a prompt is told of a workspace.
use vstd::prelude::*;
use vstd::string::*;

use crate::order::{sort, sorted};
use crate::text::{concat3, join, joined};

verus! {

/// The line for one directory entry: a mark for a folder or a file, then the name.
pub open spec fn entry_line(name: Seq<char>, is_dir: bool) -> Seq<char> {
    (if is_dir {
        "📁"@
    } else {
        "📄"@
    }) + " "@ + name
}

/// The lines for directory entries.
pub open spec fn entry_lines(entries: Seq<(Seq<char>, bool)>) -> Seq<Seq<char>> {
    Seq::new(entries.len(), |i: int| entry_line(entries[i].0, entries[i].1))
}

/// At most the first fifty lines, in order.
pub open spec fn shown_entries(entries: Seq<(Seq<char>, bool)>) -> Seq<char> {
    let all = sorted::<String>(entry_lines(entries));
    joined(
        (if all.len() > 50 {
            all.take(50)
        } else {
            all
        }),
        "\n"@,
    )
}

/// The part of the context on what the directory holds; nothing where it cannot be read.
pub open spec fn listing_text(listing: Option<Seq<(Seq<char>, bool)>>) -> Seq<char> {
    match listing {
        Some(entries) => "目录内容：\n"@ + (if shown_entries(entries).len() == 0 {
            "(空)"@
        } else {
            shown_entries(entries)
        }) + "\n"@,
        None => "目录内容：(不可读)\n"@,
    }
}

/// What a prompt is told of a workspace: the root, what it holds, whether it is a Git repository.
pub open spec fn workspace_text(
    root: Seq<char>,
    listing: Option<Seq<(Seq<char>, bool)>>,
    is_git: bool,
) -> Seq<char> {
    "工作区目录："@ + root + "\n"@ + listing_text(listing) + ("Git 仓库："@ + (if is_git {
        "是"@
    } else {
        "否"@
    }) + "\n"@)
}

/// Directory entries as they stand.
pub open spec fn entry_views(entries: Seq<(String, bool)>) -> Seq<(Seq<char>, bool)> {
    Seq::new(entries.len(), |i: int| (entries[i].0@, entries[i].1))
}

/// A listing as it stands.
pub open spec fn listing_view(listing: Option<Vec<(String, bool)>>) -> Option<
    Seq<(Seq<char>, bool)>,
> {
    match listing {
        Some(v) => Some(entry_views(v@)),
        None => None,
    }
}

fn listed(entries: &Vec<(String, bool)>) -> (r: String)
    ensures
        r@ == shown_entries(entry_views(entries@)),
{
    let mut lines: Vec<String> = Vec::new();
    let mut i: usize = 0;
    while i < entries.len()
        invariant
            i <= entries@.len(),
            lines@.len() == i,
            forall|k: int|
                0 <= k < i ==> (#[trigger] lines@[k])@ == entry_line(
                    entries@[k].0@,
                    entries@[k].1,
                ),
        decreases entries@.len() - i,
    {
        let mark = if entries[i].1 { "📁" } else { "📄" };
        lines.push(concat3(mark, " ", entries[i].0.as_str()));
        i = i + 1;
    }
    assert(lines.deep_view() =~= entry_lines(entry_views(entries@)));
    let mut all = sort(lines);
    if all.len() > 50 {
        let ghost before = all.deep_view();
        all.truncate(50);
        assert(all.deep_view() =~= before.take(50));
    }
    join(&all, "\n")
}

/// What a prompt is told of a workspace: the root, what it holds, whether it is a Git repository.
pub fn workspace_context(root: &str, listing: Option<Vec<(String, bool)>>, is_git: bool) -> (out:
    String)
    ensures
        out@ == workspace_text(root@, listing_view(listing), is_git),
{
    let ghost view = listing_view(listing);
    let mut out = concat3("工作区目录：", root, "\n");
    let ghost head = out@;
    match listing {
        Some(entries) => {
            let shown = listed(&entries);
            out.append("目录内容：\n");
            if shown.as_str().is_empty() {
                out.append("(空)");
            } else {
                out.append(shown.as_str());
            }
            out.append("\n");
        },
        None => {
            out.append("目录内容：(不可读)\n");
        },
    }
    assert(out@ =~= head + listing_text(view));
    let ghost middle = out@;
    out.append("Git 仓库：");
    out.append(if is_git { "是" } else { "否" });
    out.append("\n");
    assert(out@ =~= middle + ("Git 仓库："@ + (if is_git {
        "是"@
    } else {
        "否"@
    }) + "\n"@));
    out
}

} // verus!
