//! A model provider that asks for whole completions and hands them on in pieces.
use vstd::prelude::*;
use vstd::string::*;

use crate::agent::model::{
    FinishReason, ModelEvent, ModelEventView, ModelRequest, ModelToolCall, ToolCallView,
};
use crate::json::{Json, Tree, json_read, parse};
use crate::providers::chat::{chat_body_to, chat_tree, put_to, route, route_to};
use crate::text::{chars_of, same, text_between};

verus! {

/// A provider that speaks the `/chat/completions` shape, with a model of its own.
#[derive(Debug)]
pub struct OpenAiCompatibleProvider {
    base_url: String,
    api_key: String,
    model: String,
}

/// What a provider stands for.
#[verifier::ext_equal]
pub struct ProviderView {
    pub base_url: Seq<char>,
    pub api_key: Seq<char>,
    pub model: Seq<char>,
}

impl View for OpenAiCompatibleProvider {
    type V = ProviderView;

    closed spec fn view(&self) -> ProviderView {
        ProviderView { base_url: self.base_url@, api_key: self.api_key@, model: self.model@ }
    }
}

/// A text, or what stands for it where there is none.
pub open spec fn given_or(s: Option<String>, other: Seq<char>) -> Seq<char> {
    match s {
        Some(x) => x@,
        None => other,
    }
}

/// A whole completion.
#[derive(Debug)]
pub struct Completion {
    pub content: String,
    pub tool_calls: Vec<ModelToolCall>,
    pub finish_reason: FinishReason,
}

/// What a completion stands for.
#[verifier::ext_equal]
pub struct CompletionView {
    pub content: Seq<char>,
    pub tool_calls: Seq<ToolCallView>,
    pub finish_reason: FinishReason,
}

impl View for Completion {
    type V = CompletionView;

    open spec fn view(&self) -> CompletionView {
        CompletionView {
            content: self.content@,
            tool_calls: self.tool_calls.deep_view(),
            finish_reason: self.finish_reason,
        }
    }
}

/// The arguments of a call: JSON text, an empty object where there is none, and null where the
/// text cannot be read.
pub open spec fn arguments_in(function: Tree) -> Tree {
    match json_read(
        (match function.text_at("arguments"@) {
            Some(s) => s,
            None => "{}"@,
        }),
    ) {
        Ok(t) => t,
        Err(_) => Tree::Null,
    }
}

/// The tool calls in a list: those that have a name.
pub open spec fn calls_in(items: Seq<Tree>) -> Seq<ToolCallView>
    decreases items.len(),
{
    if items.len() == 0 {
        Seq::empty()
    } else {
        let function = items.last().index("function"@);
        match function.text_at("name"@) {
            Some(name) => calls_in(items.drop_last()).push(
                ToolCallView {
                    id: (match items.last().text_at("id"@) {
                        Some(id) => id,
                        None => ""@,
                    }),
                    name,
                    arguments: arguments_in(function),
                },
            ),
            None => calls_in(items.drop_last()),
        }
    }
}

/// Why a completion ended.
pub open spec fn reason_in(choice: Tree) -> FinishReason {
    match choice.text_at("finish_reason"@) {
        Some(s) => if s == "tool_calls"@ {
            FinishReason::ToolCalls
        } else if s == "length"@ {
            FinishReason::Length
        } else {
            FinishReason::Stop
        },
        None => FinishReason::Stop,
    }
}

/// The completion in an answer: its first choice.
pub open spec fn completion_in(answer: Tree) -> Result<CompletionView, Seq<char>> {
    match answer.list_at("choices"@) {
        Some(choices) => if choices.len() == 0 {
            Err("no choices in model response"@)
        } else {
            let message = choices[0].index("message"@);
            Ok(
                CompletionView {
                    content: (match message.text_at("content"@) {
                        Some(s) => s,
                        None => ""@,
                    }),
                    tool_calls: (match message.list_at("tool_calls"@) {
                        Some(items) => calls_in(items),
                        None => Seq::empty(),
                    }),
                    finish_reason: reason_in(choices[0]),
                },
            )
        },
        None => Err("no choices in model response"@),
    }
}

fn read_calls(items: &Vec<Json>) -> (out: Vec<ModelToolCall>)
    ensures
        out.deep_view() == calls_in(items.deep_view()),
{
    let ghost all = items.deep_view();
    let null = Json::Null;
    let mut out: Vec<ModelToolCall> = Vec::new();
    let mut i: usize = 0;
    assert(out.deep_view() =~= calls_in(all.take(0)));
    while i < items.len()
        invariant
            i <= items@.len(),
            all == items.deep_view(),
            null@ == Tree::Null,
            out.deep_view() == calls_in(all.take(i as int)),
        decreases items@.len() - i,
    {
        proof {
            assert(all.take(i + 1).drop_last() =~= all.take(i as int));
            assert(all.take(i + 1).last() == items@[i as int]@);
        }
        let ghost before = out.deep_view();
        let function = match items[i].get("function") {
            Some(f) => f,
            None => &null,
        };
        match function.str_at("name") {
            Some(name) => {
                let id = match items[i].str_at("id") {
                    Some(id) => id,
                    None => "",
                };
                let text = match function.str_at("arguments") {
                    Some(a) => a,
                    None => "{}",
                };
                let arguments = match parse(text) {
                    Ok(j) => j,
                    Err(_) => Json::Null,
                };
                let call = ModelToolCall { id: id.to_owned(), name: name.to_owned(), arguments };
                out.push(call);
                assert(out.deep_view() =~= before.push(call@));
            },
            None => {},
        }
        i = i + 1;
    }
    assert(all.take(i as int) =~= all);
    out
}

fn read_reason(choice: &Json) -> (r: FinishReason)
    ensures
        r == reason_in(choice@),
{
    match choice.str_at("finish_reason") {
        Some(s) => if same(s, "tool_calls") {
            FinishReason::ToolCalls
        } else if same(s, "length") {
            FinishReason::Length
        } else {
            FinishReason::Stop
        },
        None => FinishReason::Stop,
    }
}

impl OpenAiCompatibleProvider {
    /// The provider that the environment describes.
    pub fn from_env(
        api_key: Option<String>,
        base_url: Option<String>,
        model: Option<String>,
    ) -> (r: Result<OpenAiCompatibleProvider, String>)
        ensures
            match api_key {
                Some(key) => {
                    &&& r matches Ok(p)
                    &&& p@ == (ProviderView {
                        base_url: given_or(base_url, "https://api.deepseek.com"@),
                        api_key: key@,
                        model: given_or(model, "deepseek-chat"@),
                    })
                },
                None => {
                    &&& r matches Err(e)
                    &&& e@ == "RH_API_KEY not set"@
                },
            },
    {
        let api_key = match api_key {
            Some(k) => k,
            None => return Err("RH_API_KEY not set".to_owned()),
        };
        let base_url = match base_url {
            Some(b) => b,
            None => "https://api.deepseek.com".to_owned(),
        };
        let model = match model {
            Some(m) => m,
            None => "deepseek-chat".to_owned(),
        };
        Ok(OpenAiCompatibleProvider { base_url, api_key, model })
    }

    /// The key that a request is sent with.
    pub fn api_key(&self) -> (r: &str)
        ensures
            r@ == self@.api_key,
    {
        self.api_key.as_str()
    }

    /// Where a request is sent.
    pub fn chat_url(&self) -> (r: String)
        ensures
            r@ == route(self@.base_url, "/chat/completions"@),
    {
        route_to(self.base_url.as_str(), "/chat/completions")
    }

    /// The body of a request. The model is that of the provider, whatever the request names.
    pub fn chat_body(&self, request: &ModelRequest) -> (r: Json)
        ensures
            r@ == chat_tree(put_to(request@, self@.model), false),
    {
        chat_body_to(self.model.as_str(), request, false)
    }

    /// Reads the answer to a request.
    pub fn complete_once(&self, answer: &Json) -> (r: Result<Completion, String>)
        ensures
            match r {
                Ok(c) => completion_in(answer@) matches Ok(v) && v == c@,
                Err(e) => completion_in(answer@) matches Err(v) && v == e@,
            },
    {
        let choices = match answer.array_at("choices") {
            Some(v) => v,
            None => return Err("no choices in model response".to_owned()),
        };
        if choices.len() == 0 {
            return Err("no choices in model response".to_owned());
        }
        let null = Json::Null;
        let choice = &choices[0];
        assert(choices.deep_view()[0] == choice@);
        let message = match choice.get("message") {
            Some(m) => m,
            None => &null,
        };
        let content = match message.str_at("content") {
            Some(s) => s,
            None => "",
        };
        let tool_calls = match message.array_at("tool_calls") {
            Some(items) => read_calls(items),
            None => Vec::new(),
        };
        assert(message@.list_at("tool_calls"@) is None ==> tool_calls.deep_view() =~= Seq::empty());
        Ok(
            Completion {
                content: content.to_owned(),
                tool_calls,
                finish_reason: read_reason(choice),
            },
        )
    }

    /// The completion as a stream of events: its text in pieces, its calls, and why it ended.
    pub fn stream(&self, completion: Completion) -> (out: Vec<ModelEvent>)
        ensures
            out.deep_view() == completion_events(completion@),
    {
        let ghost calls = completion.tool_calls@;
        let mut out = chunk_text(completion.content.as_str());
        let ghost head = out.deep_view();
        let ghost mut n: int = 0;
        assert(head + call_events(completion@.tool_calls.take(0)) =~= head);
        for call in it: completion.tool_calls
            invariant
                it.seq() == calls,
                n == it.index(),
                completion@.tool_calls == Seq::new(calls.len(), |i: int| calls[i]@),
                out.deep_view() == head + call_events(completion@.tool_calls.take(n)),
        {
            let ghost before = out.deep_view();
            assert(call == calls[n]);
            out.push(ModelEvent::ToolCall(call));
            proof {
                assert(out.deep_view() =~= before.push(ModelEventView::ToolCall(call@)));
                assert(call_events(completion@.tool_calls.take(n + 1)) =~= call_events(
                    completion@.tool_calls.take(n),
                ).push(ModelEventView::ToolCall(call@)));
                n = n + 1;
            }
        }
        assert(completion@.tool_calls.take(n) =~= completion@.tool_calls);
        let ghost before = out.deep_view();
        out.push(ModelEvent::Done(completion.finish_reason));
        assert(out.deep_view() =~= before.push(ModelEventView::Done(completion.finish_reason)));
        out
    }
}

/// A text in pieces of six characters; the last may be shorter.
pub open spec fn chunks(s: Seq<char>) -> Seq<Seq<char>>
    decreases s.len(),
{
    if s.len() == 0 {
        Seq::empty()
    } else if s.len() <= 6 {
        seq![s]
    } else {
        seq![s.take(6)] + chunks(s.skip(6))
    }
}

/// Pieces of text as events.
pub open spec fn text_events(pieces: Seq<Seq<char>>) -> Seq<ModelEventView> {
    Seq::new(pieces.len(), |i: int| ModelEventView::Text(pieces[i]))
}

/// Tool calls as events.
pub open spec fn call_events(calls: Seq<ToolCallView>) -> Seq<ModelEventView> {
    Seq::new(calls.len(), |i: int| ModelEventView::ToolCall(calls[i]))
}

/// A completion as a stream of events.
pub open spec fn completion_events(c: CompletionView) -> Seq<ModelEventView> {
    (text_events(chunks(c.content)) + call_events(c.tool_calls)).push(
        ModelEventView::Done(c.finish_reason),
    )
}

/// Splits a text into pieces for live display.
pub fn chunk_text(text: &str) -> (out: Vec<ModelEvent>)
    ensures
        out.deep_view() == text_events(chunks(text@)),
{
    let v = chars_of(text);
    let ghost all = text@;
    let mut out: Vec<ModelEvent> = Vec::new();
    let mut i: usize = 0;
    assert(all.skip(0) =~= all);
    assert(out.deep_view() + text_events(chunks(all)) =~= text_events(chunks(all)));
    while i < v.len()
        invariant
            v@ == all,
            i <= v@.len(),
            out.deep_view() + text_events(chunks(all.skip(i as int))) == text_events(chunks(all)),
        decreases v@.len() - i,
    {
        let n: usize = if v.len() - i <= 6 {
            v.len()
        } else {
            i + 6
        };
        let ghost before = out.deep_view();
        let ghost rest = all.skip(i as int);
        let piece = text_between(&v, i, n);
        proof {
            assert(all.skip(n as int) =~= rest.skip(n - i));
            assert(piece@ =~= rest.take(n - i));
            if rest.len() <= 6 {
                assert(rest.take(n - i) =~= rest);
                assert(chunks(all.skip(n as int)) =~= Seq::empty());
            }
            assert(chunks(rest) =~= seq![piece@] + chunks(all.skip(n as int)));
        }
        out.push(ModelEvent::Text(piece));
        proof {
            assert(out.deep_view() =~= before.push(ModelEventView::Text(piece@)));
            assert(out.deep_view() + text_events(chunks(all.skip(n as int))) =~= before
                + text_events(chunks(rest)));
        }
        i = n;
    }
    assert(chunks(all.skip(i as int)) =~= Seq::empty());
    assert(out.deep_view() =~= text_events(chunks(all)));
    out
}

/// Pieces put together again.
pub open spec fn together(pieces: Seq<Seq<char>>) -> Seq<char>
    decreases pieces.len(),
{
    if pieces.len() == 0 {
        Seq::empty()
    } else {
        pieces[0] + together(pieces.drop_first())
    }
}

/// Put together, the pieces of a text are the text; none of them is empty or longer than six
/// characters.
pub proof fn lemma_pieces_make_the_text(s: Seq<char>)
    ensures
        together(chunks(s)) == s,
        forall|i: int| 0 <= i < chunks(s).len() ==> 0 < (#[trigger] chunks(s)[i]).len() <= 6,
    decreases s.len(),
{
    if s.len() == 0 {
        assert(s =~= Seq::empty());
    } else if s.len() <= 6 {
        let none: Seq<Seq<char>> = Seq::empty();
        assert(chunks(s).drop_first() =~= none);
        assert(together(none) =~= Seq::empty());
        assert(s + Seq::<char>::empty() =~= s);
    } else {
        let rest = s.skip(6);
        lemma_pieces_make_the_text(rest);
        assert(chunks(s).drop_first() =~= chunks(rest));
        assert(s.take(6) + rest =~= s);
        assert forall|i: int| 0 <= i < chunks(s).len() implies 0 < (#[trigger] chunks(s)[i]).len()
            <= 6 by {
            if i > 0 {
                assert(chunks(s)[i] == chunks(rest)[i - 1]);
            }
        }
    }
}

/// A stream of events ends with why the completion ended, and says so nowhere before.
pub proof fn lemma_stream_says_once_that_it_is_done(c: CompletionView)
    ensures
        completion_events(c).last() == ModelEventView::Done(c.finish_reason),
        forall|i: int|
            0 <= i < completion_events(c).len() - 1 ==> !((#[trigger] completion_events(
                c,
            )[i]) is Done),
{
}

} // verus!
