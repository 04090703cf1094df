//! What a model is told of the tools, and what becomes of their results.
use vstd::prelude::*;
use vstd::string::*;

use crate::json::Tree;
use crate::text::holds;
use crate::text_laws::lemma_part_is_held;
use crate::tool::call::CallView;
use crate::tool::description::{DescriptionView, description_tree};
use crate::tool::error::{ErrorView, ToolErrorKind, error_text, kind_words, unknown_tool};
use crate::tool::registry::{Tool, manifest, run_result};
use crate::tool::stream::{ItemView, OutcomeView, after_item, drained, logged_output};

verus! {

/// A model is told of the tools in the order in which they stand: of the first ones, then of the
/// others. A tool that is listed is told of once, by its own description, and one that is not is
/// left out.
pub proof fn lemma_manifest_in_parts<T: Tool>(
    a: Seq<(Seq<char>, T)>,
    b: Seq<(Seq<char>, T)>,
    one: (Seq<char>, T),
    ctx: CallView,
)
    ensures
        manifest(a + b, ctx) == manifest(a, ctx) + manifest(b, ctx),
        one.1.listed(ctx) ==> manifest(seq![one], ctx) == seq![one.1.described()],
        !one.1.listed(ctx) ==> manifest(seq![one], ctx).len() == 0,
    decreases b.len(),
{
    assert(seq![one].drop_last() =~= Seq::empty());
    assert(seq![one].last() == one);
    assert(manifest(Seq::<(Seq<char>, T)>::empty(), ctx) =~= Seq::empty());
    if one.1.listed(ctx) {
        assert(manifest(seq![one], ctx) =~= seq![one.1.described()]);
    }
    if b.len() == 0 {
        assert(a + b =~= a);
        assert(manifest(a, ctx) + manifest(b, ctx) =~= manifest(a, ctx));
    } else {
        lemma_manifest_in_parts(a, b.drop_last(), one, ctx);
        assert((a + b).drop_last() =~= a + b.drop_last());
        assert((a + b).last() == b.last());
        assert(manifest(a + b, ctx) =~= manifest(a, ctx) + manifest(b, ctx));
    }
}

/// Where all tools are listed, a model is told of every one of them, in order.
pub proof fn lemma_all_are_listed<T: Tool>(rows: Seq<(Seq<char>, T)>, ctx: CallView)
    requires
        forall|i: int| 0 <= i < rows.len() ==> (#[trigger] rows[i]).1.listed(ctx),
    ensures
        manifest(rows, ctx).len() == rows.len(),
        forall|i: int|
            0 <= i < rows.len() ==> #[trigger] manifest(rows, ctx)[i] == rows[i].1.described(),
    decreases rows.len(),
{
    if rows.len() > 0 {
        let front = rows.drop_last();
        assert forall|i: int| 0 <= i < front.len() implies (#[trigger] front[i]).1.listed(ctx) by {
            assert(front[i] == rows[i]);
        }
        lemma_all_are_listed(front, ctx);
        assert(rows.last() == rows[rows.len() - 1]);
        assert forall|i: int| 0 <= i < rows.len() implies #[trigger] manifest(rows, ctx)[i]
            == rows[i].1.described() by {
            if i < front.len() {
                assert(manifest(rows, ctx)[i] == manifest(front, ctx)[i]);
                assert(front[i] == rows[i]);
            }
        }
    }
}

/// A description is told by its name, what the tool does, and what it takes.
pub proof fn lemma_description_members(d: DescriptionView)
    ensures
        description_tree(d).text_at("name"@) == Some(d.name),
        description_tree(d).text_at("description"@) == Some(d.description),
        description_tree(d).at("parameters"@) == Some(d.parameters),
{
    reveal_strlit("name");
    reveal_strlit("description");
    reveal_strlit("parameters");
    assert("name"@.len() == 4 && "description"@.len() == 11 && "parameters"@.len() == 10);
}

/// Progress changes nothing; a result is the output, and an error is told as one, with the words for
/// its kind and its message. Without a result there is nothing.
pub proof fn lemma_items_count(o: OutcomeView, text: Seq<char>, t: Tree, e: ErrorView)
    ensures
        after_item(o, ItemView::Progress { text }) == o,
        logged_output(after_item(o, ItemView::Terminal(Ok(t)))) == t,
        after_item(o, ItemView::Terminal(Ok(t))).is_error == o.is_error,
        after_item(o, ItemView::Terminal(Err(e))).is_error,
        logged_output(after_item(o, ItemView::Terminal(Err(e)))).text_at("error"@) matches Some(s)
            && holds(s, e.message) && holds(s, kind_words(e.kind)),
        logged_output(drained(Seq::empty())) == Tree::Null,
        !drained(Seq::empty()).is_error,
{
    let none: Seq<char> = Seq::empty();
    let s = error_text(e);
    assert(s =~= (kind_words(e.kind) + ": "@) + e.message + none);
    lemma_part_is_held(kind_words(e.kind) + ": "@, e.message, none);
    assert(s =~= none + kind_words(e.kind) + (": "@ + e.message));
    lemma_part_is_held(none, kind_words(e.kind), ": "@ + e.message);
}

/// What is not registered is told to be unknown by its own name; a tool that runs nothing says so, and
/// what a tool that runs gives is given on as it is.
pub proof fn lemma_calls_that_fail(id: Seq<char>, ran: Result<Tree, ErrorView>)
    ensures
        unknown_tool(id).kind == ToolErrorKind::NotFound,
        holds(unknown_tool(id).message, id),
        run_result(id, Some(ran)) == ran,
        run_result(id, None) matches Err(e) && e.kind == ToolErrorKind::NotImplemented && holds(
            e.message,
            id,
        ),
{
    lemma_part_is_held("tool `"@, id, "` not found"@);
    lemma_part_is_held("tool `"@, id, "` implements neither `run` nor `execute`"@);
}

} // verus!
