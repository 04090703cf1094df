//! The event stream of a completion, read piece by piece.
use vstd::prelude::*;
use vstd::string::*;

use crate::agent::model::{FinishReason, ModelEvent, ModelEventView, ModelToolCall, ToolCallView};
use crate::bytes::{behind_line, extend, first_line, has_line, line_text, take_line};
use crate::json::{Json, Tree, json_read, parse};
use crate::text::{begins, same, strip_prefix, trim_start, trimmed_start};

verus! {

/// A tool call that is being assembled from pieces.
#[derive(Debug)]
struct ToolCallAcc {
    id: String,
    name: String,
    arguments: String,
}

/// What a tool call in assembly stands for.
#[verifier::ext_equal]
pub struct AccView {
    pub id: Seq<char>,
    pub name: Seq<char>,
    pub arguments: Seq<char>,
}

impl View for ToolCallAcc {
    type V = AccView;

    closed spec fn view(&self) -> AccView {
        AccView { id: self.id@, name: self.name@, arguments: self.arguments@ }
    }
}

impl DeepView for ToolCallAcc {
    type V = AccView;

    closed spec fn deep_view(&self) -> AccView {
        self@
    }
}

/// A reader of the event stream.
#[derive(Debug)]
pub struct SseState {
    buf: Vec<u8>,
    pending: Vec<ModelEvent>,
    tool_calls: Vec<ToolCallAcc>,
    finish_reason: FinishReason,
    finished: bool,
}

/// What a reader stands for.
#[verifier::ext_equal]
pub struct SseView {
    /// The bytes of a line that is not whole yet.
    pub buf: Seq<u8>,
    /// The events that were read and not handed out.
    pub pending: Seq<ModelEventView>,
    /// The tool calls in assembly.
    pub calls: Seq<AccView>,
    pub finish: FinishReason,
    pub finished: bool,
}

impl View for SseState {
    type V = SseView;

    closed spec fn view(&self) -> SseView {
        SseView {
            buf: self.buf@,
            pending: self.pending.deep_view(),
            calls: self.tool_calls.deep_view(),
            finish: self.finish_reason,
            finished: self.finished,
        }
    }
}

/// A reader that has read nothing.
pub open spec fn unread() -> SseView {
    SseView {
        buf: Seq::empty(),
        pending: Seq::empty(),
        calls: Seq::empty(),
        finish: FinishReason::Stop,
        finished: false,
    }
}

/// The reason that a word names.
pub open spec fn reason_named(s: Seq<char>) -> FinishReason {
    if s == "tool_calls"@ {
        FinishReason::ToolCalls
    } else if s == "length"@ {
        FinishReason::Length
    } else {
        FinishReason::Stop
    }
}

/// The reason that a word names.
pub fn parse_reason(s: &str) -> (r: FinishReason)
    ensures
        r == reason_named(s@),
{
    if same(s, "tool_calls") {
        FinishReason::ToolCalls
    } else if same(s, "length") {
        FinishReason::Length
    } else {
        FinishReason::Stop
    }
}

/// Events with one more, where its text is not empty.
pub open spec fn with_text(
    events: Seq<ModelEventView>,
    text: Option<Seq<char>>,
    reasoning: bool,
) -> Seq<ModelEventView> {
    match text {
        Some(s) => if s.len() == 0 {
            events
        } else if reasoning {
            events.push(ModelEventView::Reasoning(s))
        } else {
            events.push(ModelEventView::Text(s))
        },
        None => events,
    }
}

/// A call in assembly of which nothing is known.
pub open spec fn blank() -> AccView {
    AccView { id: Seq::empty(), name: Seq::empty(), arguments: Seq::empty() }
}

/// The calls with blanks behind them, so that there is one at `index`.
pub open spec fn padded(calls: Seq<AccView>, index: nat) -> Seq<AccView> {
    if calls.len() > index {
        calls
    } else {
        calls + Seq::new((index + 1 - calls.len()) as nat, |i: int| blank())
    }
}

/// Which call a piece belongs to.
pub open spec fn piece_index(piece: Tree) -> usize {
    match piece.number_at("index"@) {
        Some(n) => n as usize,
        None => 0,
    }
}

/// A call with one more piece: identity and name are replaced, arguments are continued.
pub open spec fn with_piece(acc: AccView, piece: Tree) -> AccView {
    let function = piece.index("function"@);
    AccView {
        id: (match piece.text_at("id"@) {
            Some(id) => id,
            None => acc.id,
        }),
        name: (match function.text_at("name"@) {
            Some(name) => if name.len() > 0 {
                name
            } else {
                acc.name
            },
            None => acc.name,
        }),
        arguments: (match function.text_at("arguments"@) {
            Some(args) => acc.arguments + args,
            None => acc.arguments,
        }),
    }
}

/// The calls after one piece.
pub open spec fn assembled(calls: Seq<AccView>, piece: Tree) -> Seq<AccView> {
    let i = piece_index(piece) as int;
    let p = padded(calls, i as nat);
    p.update(i, with_piece(p[i], piece))
}

/// The calls after a list of pieces.
pub open spec fn assembled_all(calls: Seq<AccView>, pieces: Seq<Tree>) -> Seq<AccView>
    decreases pieces.len(),
{
    if pieces.len() == 0 {
        calls
    } else {
        assembled(assembled_all(calls, pieces.drop_last()), pieces.last())
    }
}

/// The reader after one message of the stream.
pub open spec fn with_delta(v: SseView, message: Tree) -> SseView {
    match message.list_at("choices"@) {
        Some(choices) => if choices.len() == 0 {
            v
        } else {
            let choice = choices[0];
            let delta = choice.index("delta"@);
            SseView {
                finish: (match choice.text_at("finish_reason"@) {
                    Some(reason) => reason_named(reason),
                    None => v.finish,
                }),
                pending: with_text(
                    with_text(v.pending, delta.text_at("reasoning_content"@), true),
                    delta.text_at("content"@),
                    false,
                ),
                calls: (match delta.list_at("tool_calls"@) {
                    Some(pieces) => assembled_all(v.calls, pieces),
                    None => v.calls,
                }),
                ..v
            }
        },
        None => v,
    }
}

/// The value that a text holds; null where it is no JSON.
pub open spec fn value_or_null(text: Seq<char>) -> Tree {
    match json_read(text) {
        Ok(t) => t,
        Err(_) => Tree::Null,
    }
}

/// The finished calls: those that have a name.
pub open spec fn call_events(calls: Seq<AccView>) -> Seq<ModelEventView>
    decreases calls.len(),
{
    if calls.len() == 0 {
        Seq::empty()
    } else if calls.last().name.len() == 0 {
        call_events(calls.drop_last())
    } else {
        call_events(calls.drop_last()).push(
            ModelEventView::ToolCall(
                ToolCallView {
                    id: calls.last().id,
                    name: calls.last().name,
                    arguments: value_or_null(calls.last().arguments),
                },
            ),
        )
    }
}

/// The reader at the end: the calls are handed out, then the reason, and nothing after it.
pub open spec fn at_end(v: SseView) -> SseView {
    if v.finished {
        v
    } else {
        SseView {
            finished: true,
            pending: v.pending + call_events(v.calls) + seq![ModelEventView::Done(v.finish)],
            ..v
        }
    }
}

/// The reader after one line. Only data lines count, and none once the end was reached.
pub open spec fn with_line(v: SseView, line: Seq<char>) -> SseView {
    if v.finished || !begins(line, "data:"@) {
        v
    } else {
        let data = trimmed_start(line.skip("data:"@.len() as int));
        if data == "[DONE]"@ {
            at_end(v)
        } else {
            match json_read(data) {
                Ok(t) => with_delta(v, t),
                Err(_) => v,
            }
        }
    }
}

/// The reader after all whole lines in its buffer.
pub open spec fn processed(v: SseView) -> SseView
    decreases v.buf.len(),
{
    if has_line(v.buf) {
        processed(
            with_line(
                SseView { buf: behind_line(v.buf), ..v },
                line_text(first_line(v.buf)),
            ),
        )
    } else {
        v
    }
}

/// The reader after more bytes.
pub open spec fn fed(v: SseView, bytes: Seq<u8>) -> SseView {
    processed(SseView { buf: v.buf + bytes, ..v })
}

/// What a reader has to hand out.
#[derive(Debug)]
pub enum Polled {
    /// The next event.
    Event(ModelEvent),
    /// Nothing any more.
    Closed,
    /// Nothing yet: more bytes are needed, or the word that there are none.
    Starved,
}

impl SseState {
    /// A reader that has read nothing.
    pub fn new() -> (r: SseState)
        ensures
            r@ == unread(),
    {
        let r = SseState {
            buf: Vec::new(),
            pending: Vec::new(),
            tool_calls: Vec::new(),
            finish_reason: FinishReason::Stop,
            finished: false,
        };
        assert(r@ =~= unread());
        r
    }

    fn say(&mut self, text: Option<&str>, reasoning: bool)
        ensures
            final(self)@ == (SseView {
                pending: with_text(
                    old(self)@.pending,
                    (match text {
                        Some(s) => Some(s@),
                        None => None,
                    }),
                    reasoning,
                ),
                ..old(self)@
            }),
    {
        match text {
            Some(s) => {
                if !s.is_empty() {
                    let ghost before = self@.pending;
                    let event = if reasoning {
                        ModelEvent::Reasoning(s.to_owned())
                    } else {
                        ModelEvent::Text(s.to_owned())
                    };
                    self.pending.push(event);
                    assert(self@.pending =~= before.push(event@));
                }
            },
            None => {},
        }
    }

    fn pad(&mut self, index: usize)
        ensures
            final(self)@ == (SseView {
                calls: padded(old(self)@.calls, index as nat),
                ..old(self)@
            }),
            index < final(self).tool_calls@.len(),
    {
        let ghost before = self@;
        while self.tool_calls.len() <= index
            invariant
                before == old(self)@,
                self@ == (SseView { calls: self@.calls, ..before }),
                before.calls.len() <= self@.calls.len(),
                self@.calls.take(before.calls.len() as int) == before.calls,
                self@.calls.len() <= index + 1 || self@.calls.len() == before.calls.len(),
                forall|k: int|
                    before.calls.len() <= k < self@.calls.len() ==> (#[trigger] self@.calls[k])
                        == blank(),
            decreases index + 1 - self.tool_calls@.len(),
        {
            let ghost now = self@.calls;
            let acc = ToolCallAcc {
                id: String::new(),
                name: String::new(),
                arguments: String::new(),
            };
            assert(acc@ =~= blank());
            self.tool_calls.push(acc);
            assert(self@.calls =~= now.push(blank()));
            assert(self@.calls.take(before.calls.len() as int) =~= before.calls);
        }
        assert(self@.calls =~= padded(before.calls, index as nat));
    }

    fn assemble(&mut self, piece: &Json)
        ensures
            final(self)@ == (SseView { calls: assembled(old(self)@.calls, piece@), ..old(self)@ }),
    {
        let ghost before = self@;
        let index: usize = match piece.u64_at("index") {
            Some(n) => n as usize,
            None => 0,
        };
        self.pad(index);
        let ghost p = self@.calls;
        let acc = &self.tool_calls[index];
        let ghost acc_view = acc@;
        assert(p[index as int] == acc_view);
        let id = match piece.str_at("id") {
            Some(id) => id.to_owned(),
            None => acc.id.clone(),
        };
        let mut name = acc.name.clone();
        let mut arguments = acc.arguments.clone();
        match piece.get("function") {
            Some(function) => {
                match function.str_at("name") {
                    Some(n) => {
                        if !n.is_empty() {
                            name = n.to_owned();
                        }
                    },
                    None => {},
                }
                match function.str_at("arguments") {
                    Some(args) => {
                        arguments.append(args);
                    },
                    None => {},
                }
            },
            None => {},
        }
        let acc = ToolCallAcc { id, name, arguments };
        assert(acc@ =~= with_piece(acc_view, piece@));
        self.tool_calls.set(index, acc);
        assert(self@.calls =~= assembled(before.calls, piece@));
    }

    fn handle_delta(&mut self, message: &Json)
        ensures
            final(self)@ == with_delta(old(self)@, message@),
    {
        let choices = match message.array_at("choices") {
            Some(c) => c,
            None => return,
        };
        if choices.len() == 0 {
            return;
        }
        let choice = &choices[0];
        assert(choice@ == choices.deep_view()[0]);
        match choice.str_at("finish_reason") {
            Some(reason) => {
                self.finish_reason = parse_reason(reason);
            },
            None => {},
        }
        match choice.get("delta") {
            Some(delta) => {
                self.say(delta.str_at("reasoning_content"), true);
                self.say(delta.str_at("content"), false);
                match delta.array_at("tool_calls") {
                    Some(pieces) => {
                        let ghost before = self@;
                        let ghost all = pieces.deep_view();
                        let mut i: usize = 0;
                        while i < pieces.len()
                            invariant
                                i <= pieces@.len(),
                                all == pieces.deep_view(),
                                self@ == (SseView {
                                    calls: assembled_all(before.calls, all.take(i as int)),
                                    ..before
                                }),
                            decreases pieces@.len() - i,
                        {
                            proof {
                                assert(all.take(i + 1).drop_last() =~= all.take(i as int));
                                assert(all.take(i + 1).last() == pieces@[i as int]@);
                            }
                            self.assemble(&pieces[i]);
                            i = i + 1;
                        }
                        assert(all.take(i as int) =~= all);
                    },
                    None => {},
                }
            },
            None => {},
        }
    }

    /// There is nothing more to read: the assembled calls and the reason are handed out.
    pub fn finish(&mut self)
        ensures
            final(self)@ == at_end(old(self)@),
    {
        if self.finished {
            return;
        }
        let ghost before = self@;
        self.finished = true;
        let ghost all = before.calls;
        let mut i: usize = 0;
        assert(before.pending + call_events(all.take(0)) =~= before.pending);
        while i < self.tool_calls.len()
            invariant
                i <= self.tool_calls@.len(),
                all == before.calls,
                all == self.tool_calls.deep_view(),
                self@ == (SseView {
                    finished: true,
                    pending: before.pending + call_events(all.take(i as int)),
                    ..before
                }),
            decreases self.tool_calls@.len() - i,
        {
            proof {
                assert(all.take(i + 1).drop_last() =~= all.take(i as int));
                assert(all.take(i + 1).last() == self.tool_calls@[i as int]@);
            }
            let acc = &self.tool_calls[i];
            if !acc.name.as_str().is_empty() {
                let ghost now = self@.pending;
                let arguments = match parse(acc.arguments.as_str()) {
                    Ok(j) => j,
                    Err(_) => Json::Null,
                };
                let event = ModelEvent::ToolCall(
                    ModelToolCall { id: acc.id.clone(), name: acc.name.clone(), arguments },
                );
                self.pending.push(event);
                assert(self@.pending =~= now.push(event@));
                assert(self@.pending =~= before.pending + call_events(all.take(i + 1)));
            }
            i = i + 1;
        }
        assert(all.take(i as int) =~= all);
        let ghost now = self@.pending;
        self.pending.push(ModelEvent::Done(self.finish_reason));
        assert(self@.pending =~= now + seq![ModelEventView::Done(before.finish)]);
    }

    fn handle_line(&mut self, line: &str)
        ensures
            final(self)@ == with_line(old(self)@, line@),
    {
        if self.finished {
            return;
        }
        match strip_prefix(line, "data:") {
            Some(rest) => {
                let data = trim_start(rest.as_str());
                if same(data.as_str(), "[DONE]") {
                    self.finish();
                } else {
                    match parse(data.as_str()) {
                        Ok(j) => self.handle_delta(&j),
                        Err(_) => {},
                    }
                }
            },
            None => {},
        }
    }

    fn process_lines(&mut self)
        ensures
            final(self)@ == processed(old(self)@),
    {
        let ghost start = self@;
        loop
            invariant
                start == old(self)@,
                processed(self@) == processed(start),
            ensures
                self@ == processed(start),
            decreases self@.buf.len(),
        {
            let ghost before = self@;
            match take_line(&mut self.buf) {
                Some(line) => {
                    self.handle_line(line.as_str());
                },
                None => {
                    break;
                },
            }
        }
    }

    /// Takes more bytes of the stream.
    pub fn feed(&mut self, bytes: &Vec<u8>)
        ensures
            final(self)@ == fed(old(self)@, bytes@),
    {
        extend(&mut self.buf, bytes);
        self.process_lines();
    }

    /// Hands out the next event.
    pub fn poll(&mut self) -> (r: Polled)
        ensures
            match r {
                Polled::Event(e) => {
                    &&& old(self)@.pending.len() > 0
                    &&& e@ == old(self)@.pending[0]
                    &&& final(self)@ == (SseView {
                        pending: old(self)@.pending.drop_first(),
                        ..old(self)@
                    })
                },
                Polled::Closed => {
                    &&& old(self)@.pending.len() == 0
                    &&& old(self)@.finished
                    &&& final(self)@ == old(self)@
                },
                Polled::Starved => {
                    &&& old(self)@.pending.len() == 0
                    &&& !old(self)@.finished
                    &&& final(self)@ == old(self)@
                },
            },
    {
        if self.pending.len() > 0 {
            let ghost before = self@.pending;
            let e = self.pending.remove(0);
            assert(self@.pending =~= before.drop_first());
            Polled::Event(e)
        } else if self.finished {
            Polled::Closed
        } else {
            Polled::Starved
        }
    }
}

} // verus!
