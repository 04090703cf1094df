//! The stream of a tool call: any progress, then exactly one result.
use vstd::prelude::*;

use crate::json::{Json, Tree, object};
use crate::tool::error::{ErrorView, ToolError, error_text};

verus! {

/// One item of a tool call's stream.
#[derive(Debug)]
pub enum ToolStreamItem {
    /// Progress: a log line or a part of the output.
    Progress { text: String },
    /// The result; always the last item.
    Terminal(Result<Json, ToolError>),
}

/// What a stream item stands for.
pub enum ItemView {
    Progress { text: Seq<char> },
    Terminal(Result<Tree, ErrorView>),
}

/// A tool's result as it stands.
pub open spec fn result_view(r: Result<Json, ToolError>) -> Result<Tree, ErrorView> {
    match r {
        Ok(j) => Ok(j@),
        Err(e) => Err(e@),
    }
}

impl View for ToolStreamItem {
    type V = ItemView;

    open spec fn view(&self) -> ItemView {
        match self {
            ToolStreamItem::Progress { text } => ItemView::Progress { text: text@ },
            ToolStreamItem::Terminal(r) => ItemView::Terminal(result_view(*r)),
        }
    }
}

impl DeepView for ToolStreamItem {
    type V = ItemView;

    open spec fn deep_view(&self) -> ItemView {
        self@
    }
}

/// The stream contract: any number of progress items, then exactly one result.
pub open spec fn proper_stream(items: Seq<ItemView>) -> bool {
    &&& items.len() > 0
    &&& items.last() is Terminal
    &&& forall|i: int| 0 <= i < items.len() - 1 ==> (#[trigger] items[i]) is Progress
}

/// The stream whose only item is a result.
pub fn terminal_only(result: Result<Json, ToolError>) -> (r: Vec<ToolStreamItem>)
    ensures
        r.deep_view() == seq![ItemView::Terminal(result_view(result))],
        proper_stream(r.deep_view()),
{
    let mut v: Vec<ToolStreamItem> = Vec::new();
    v.push(ToolStreamItem::Terminal(result));
    assert(v.deep_view() =~= seq![ItemView::Terminal(result_view(result))]);
    v
}

/// What a call gives: the output, and whether it is an error.
pub struct OutcomeView {
    pub output: Option<Tree>,
    pub is_error: bool,
}

/// The output that tells of an error.
pub open spec fn error_output(e: ErrorView) -> Tree {
    object().with("error"@, Tree::Text(error_text(e)))
}

/// The outcome after one more item. An error, once there, stays.
pub open spec fn after_item(o: OutcomeView, item: ItemView) -> OutcomeView {
    match item {
        ItemView::Progress { .. } => o,
        ItemView::Terminal(Ok(t)) => OutcomeView { output: Some(t), ..o },
        ItemView::Terminal(Err(e)) => OutcomeView { output: Some(error_output(e)), is_error: true },
    }
}

/// The outcome of a stream.
pub open spec fn drained(items: Seq<ItemView>) -> OutcomeView
    decreases items.len(),
{
    if items.len() == 0 {
        OutcomeView { output: None, is_error: false }
    } else {
        after_item(drained(items.drop_last()), items.last())
    }
}

/// The output that is logged; null where there was no result.
pub open spec fn logged_output(o: OutcomeView) -> Tree {
    match o.output {
        Some(t) => t,
        None => Tree::Null,
    }
}

/// What a call gave so far.
#[derive(Debug)]
pub struct Drain {
    output: Option<Json>,
    is_error: bool,
}

impl View for Drain {
    type V = OutcomeView;

    closed spec fn view(&self) -> OutcomeView {
        OutcomeView { output: self.output.deep_view(), is_error: self.is_error }
    }
}

/// The JSON that tells of an error.
pub fn error_json(e: &ToolError) -> (r: Json)
    ensures
        r@ == error_output(e@),
{
    let text = e.text();
    Json::object().with("error", Json::Text(text))
}

impl Drain {
    /// Before the first item.
    pub fn new() -> (r: Drain)
        ensures
            r@ == drained(Seq::empty()),
    {
        Drain { output: None, is_error: false }
    }

    /// Takes one item.
    pub fn take(&mut self, item: ToolStreamItem)
        ensures
            final(self)@ == after_item(old(self)@, item@),
    {
        match item {
            ToolStreamItem::Progress { .. } => {},
            ToolStreamItem::Terminal(Ok(value)) => {
                self.output = Some(value);
            },
            ToolStreamItem::Terminal(Err(e)) => {
                self.output = Some(error_json(&e));
                self.is_error = true;
            },
        }
    }

    /// After the last item: the output, and whether it is an error.
    pub fn finish(self) -> (r: (Json, bool))
        ensures
            r.0@ == logged_output(self@),
            r.1 == self@.is_error,
    {
        let output = match self.output {
            Some(j) => j,
            None => Json::Null,
        };
        (output, self.is_error)
    }
}

/// Drains a stream that is there as a whole.
pub fn drain(items: Vec<ToolStreamItem>) -> (r: (Json, bool))
    ensures
        r.0@ == logged_output(drained(items.deep_view())),
        r.1 == drained(items.deep_view()).is_error,
{
    let ghost all = items.deep_view();
    let mut d = Drain::new();
    let ghost mut n: int = 0;
    assert(all.take(0) =~= Seq::empty());
    for item in it: items
        invariant
            it.seq() == items@,
            all == items.deep_view(),
            n == it.index(),
            d@ == drained(all.take(n)),
    {
        proof {
            assert(item == items@[n]);
            assert(all.take(n + 1).drop_last() =~= all.take(n));
            assert(all.take(n + 1).last() == item@);
        }
        d.take(item);
        proof {
            n = n + 1;
        }
    }
    assert(all.take(n) =~= all);
    d.finish()
}

proof fn lemma_progress_is_silent(items: Seq<ItemView>)
    requires
        forall|i: int| 0 <= i < items.len() ==> (#[trigger] items[i]) is Progress,
    ensures
        drained(items) == drained(Seq::empty()),
    decreases items.len(),
{
    if items.len() > 0 {
        let front = items.drop_last();
        assert forall|i: int| 0 <= i < front.len() implies (#[trigger] front[i]) is Progress by {
            assert(items[i] is Progress);
        }
        lemma_progress_is_silent(front);
        assert(items[items.len() - 1] is Progress);
    } else {
        assert(items =~= Seq::empty());
    }
}

/// Draining a proper stream gives its one result: the value, or the error told of as output.
pub proof fn lemma_drain_gives_the_result(items: Seq<ItemView>)
    requires
        proper_stream(items),
    ensures
        items.last() matches ItemView::Terminal(r) && match r {
            Ok(t) => logged_output(drained(items)) == t && !drained(items).is_error,
            Err(e) => logged_output(drained(items)) == error_output(e) && drained(items).is_error,
        },
{
    let front = items.drop_last();
    assert forall|i: int| 0 <= i < front.len() implies (#[trigger] front[i]) is Progress by {
        assert(items[i] is Progress);
    }
    lemma_progress_is_silent(front);
}

} // verus!
